//! Sensors, limits, recipes, device configuration and the live room view: the
//! checks and defaults the handlers apply before and after they touch the database.

use crate::modbus::{power_action_of, PowerAction};
use crate::text::{chars_of, eq_str, opt_view, parse_int, trim, trim_string};
use vstd::prelude::*;

verus! {

// ---------------------------------------------------------------------------
// Errors
// ---------------------------------------------------------------------------

/// Why a sensor, limit or recipe request was refused.
#[derive(PartialEq, Eq, Structural, Clone, Copy, Debug)]
pub enum PharmaError {
    InvalidCategory,
    EmptyCustomId,
    DuplicateCustomId,
    ArchivedCustomId,
    RestoreConflict,
    InvalidPowerAction,
    NothingSelected,
    InvalidSensorId,
    EmptyRecipeName,
    SensorNotFound,
    MissingRoomId,
}

impl PharmaError {
    /// The API error code: 4040 for a missing sensor, 10000 otherwise.
    pub fn code(&self) -> (r: i64)
        ensures
            r == (if *self == PharmaError::SensorNotFound {
                4040int
            } else {
                10000int
            }),
    {
        match self {
            PharmaError::SensorNotFound => 4040,
            _ => 10000,
        }
    }

    /// The message shown to the user.
    pub open spec fn text(self) -> Seq<char> {
        match self {
            PharmaError::InvalidCategory => "category 必须为 particle/biocapt/analog"@,
            PharmaError::EmptyCustomId => "设备编号/Custom ID 不能为空"@,
            PharmaError::DuplicateCustomId => "设备编号已存在"@,
            PharmaError::ArchivedCustomId => "该编号存在于已删除设备，请先恢复或换一个编号"@,
            PharmaError::RestoreConflict => "已有同编号在用设备，无法恢复"@,
            PharmaError::InvalidPowerAction => "无效的电源动作"@,
            PharmaError::NothingSelected => "请选择房间或设备"@,
            PharmaError::InvalidSensorId => "sensorId 无效"@,
            PharmaError::EmptyRecipeName => "配方名称不能为空"@,
            PharmaError::SensorNotFound => "传感器不存在"@,
            PharmaError::MissingRoomId => "请指定 roomId"@,
        }
    }

    /// The message shown to the user.
    pub fn message(&self) -> (r: &'static str)
        ensures
            r@ == self.text(),
    {
        match self {
            PharmaError::InvalidCategory => "category 必须为 particle/biocapt/analog",
            PharmaError::EmptyCustomId => "设备编号/Custom ID 不能为空",
            PharmaError::DuplicateCustomId => "设备编号已存在",
            PharmaError::ArchivedCustomId => "该编号存在于已删除设备，请先恢复或换一个编号",
            PharmaError::RestoreConflict => "已有同编号在用设备，无法恢复",
            PharmaError::InvalidPowerAction => "无效的电源动作",
            PharmaError::NothingSelected => "请选择房间或设备",
            PharmaError::InvalidSensorId => "sensorId 无效",
            PharmaError::EmptyRecipeName => "配方名称不能为空",
            PharmaError::SensorNotFound => "传感器不存在",
            PharmaError::MissingRoomId => "请指定 roomId",
        }
    }
}

/// `v`, or `system` when no one is named.
pub fn or_system(v: Option<String>) -> (r: String)
    ensures
        r@ == match v {
            Some(s) => s@,
            None => "system"@,
        },
{
    match v {
        Some(s) => s,
        None => String::from_str("system"),
    }
}

// ---------------------------------------------------------------------------
// Listing filters
// ---------------------------------------------------------------------------

/// The query of the sensor and limit lists.
pub struct CategoryQuery {
    pub category: Option<String>,
    /// `1` or `true`: deleted sensors are listed too.
    pub include_deleted: Option<String>,
    /// `1` or `true`: only deleted sensors are listed.
    pub only_deleted: Option<String>,
}

/// Which sensors a list shows, by their `status` column.
#[derive(PartialEq, Eq, Structural, Clone, Copy, Debug)]
pub enum StatusFilter {
    /// `status = 1`.
    Active,
    /// `status IN (0, 1)`.
    Any,
    /// `status = 0`.
    Deleted,
}

/// A query flag is set by `1` or `true`.
pub open spec fn flag_on(v: Option<Seq<char>>) -> bool {
    v == Some("1"@) || v == Some("true"@)
}

fn flag_set(v: &Option<String>) -> (r: bool)
    ensures
        r == flag_on(opt_view(*v)),
{
    match v {
        Some(s) => {
            let c = chars_of(s.as_str());
            eq_str(c.as_slice(), "1") || eq_str(c.as_slice(), "true")
        },
        None => false,
    }
}

impl StatusFilter {
    /// The SQL condition on `status`.
    pub fn condition(&self) -> (r: &'static str)
        ensures
            r@ == match self {
                StatusFilter::Active => "status = 1"@,
                StatusFilter::Any => "status IN (0, 1)"@,
                StatusFilter::Deleted => "status = 0"@,
            },
    {
        match self {
            StatusFilter::Active => "status = 1",
            StatusFilter::Any => "status IN (0, 1)",
            StatusFilter::Deleted => "status = 0",
        }
    }
}

impl CategoryQuery {
    /// The filter the flags select: only-deleted wins, then include-deleted.
    pub open spec fn status_filter_of(&self) -> StatusFilter {
        if flag_on(opt_view(self.only_deleted)) {
            StatusFilter::Deleted
        } else if flag_on(opt_view(self.include_deleted)) {
            StatusFilter::Any
        } else {
            StatusFilter::Active
        }
    }

    /// The filter on `status` that the flags select.
    pub fn status_filter(&self) -> (r: StatusFilter)
        ensures
            r == self.status_filter_of(),
    {
        if flag_set(&self.only_deleted) {
            StatusFilter::Deleted
        } else if flag_set(&self.include_deleted) {
            StatusFilter::Any
        } else {
            StatusFilter::Active
        }
    }

    /// The category to filter by: the given one unless it is empty.
    pub fn category_filter(&self) -> (r: Option<String>)
        ensures
            opt_view(r) == match self.category {
                Some(c) => if c@.len() > 0 {
                    Some(c@)
                } else {
                    None
                },
                None => None,
            },
    {
        match &self.category {
            Some(c) => {
                if c.as_str().is_empty() {
                    None
                } else {
                    Some(String::from_str(c.as_str()))
                }
            },
            None => None,
        }
    }
}

// ---------------------------------------------------------------------------
// Identifiers sent as JSON numbers or strings
// ---------------------------------------------------------------------------

/// A JSON value where an identifier is expected, as far as it matters here.
pub enum JsonId {
    /// A number that fits in an `i64`.
    Int(i64),
    /// Any other number (fractional, or above `i64::MAX`).
    Number,
    /// A string.
    Text(String),
    /// `null`, a boolean, an array or an object.
    Other,
}

/// The identifier a JSON value gives: the number itself, or a string that reads
/// as a decimal `i64`.
pub open spec fn json_id_value(v: JsonId) -> Option<int> {
    match v {
        JsonId::Int(n) => Some(n as int),
        JsonId::Text(s) => parse_int(s@, true, i64::MIN as int, i64::MAX as int),
        _ => None,
    }
}

/// An optional `i64` as an optional integer.
pub open spec fn opt_int(v: Option<i64>) -> Option<int> {
    match v {
        Some(x) => Some(x as int),
        None => None,
    }
}

/// The identifier a JSON value gives, if any.
pub fn parse_i64(value: &JsonId) -> (r: Option<i64>)
    ensures
        opt_int(r) == json_id_value(*value),
{
    match value {
        JsonId::Int(n) => Some(*n),
        JsonId::Text(s) => {
            let c = chars_of(s.as_str());
            crate::text::parse_i64(c.as_slice())
        },
        _ => None,
    }
}

/// The identifiers of a list, skipping the values that give none.
pub open spec fn id_list(s: Seq<JsonId>) -> Seq<int>
    decreases s.len(),
{
    if s.len() == 0 {
        Seq::empty()
    } else {
        let rest = id_list(s.drop_last());
        match json_id_value(s.last()) {
            Some(v) => rest.push(v),
            None => rest,
        }
    }
}

/// The identifiers of an optional list (none when it is absent).
pub open spec fn opt_id_list(values: Option<Vec<JsonId>>) -> Seq<int> {
    match values {
        Some(v) => id_list(v@),
        None => Seq::empty(),
    }
}

/// A vector of `i64` as a sequence of integers.
pub open spec fn ints(v: Seq<i64>) -> Seq<int> {
    v.map_values(|x: i64| x as int)
}

/// The identifiers of the list, in order, skipping values that give none.
pub fn parse_id_list(values: &Option<Vec<JsonId>>) -> (r: Vec<i64>)
    ensures
        ints(r@) == opt_id_list(*values),
{
    let mut out: Vec<i64> = Vec::new();
    match values {
        Some(list) => {
            let mut i: usize = 0;
            while i < list.len()
                invariant
                    i <= list@.len(),
                    ints(out@) == id_list(list@.take(i as int)),
                decreases list.len() - i,
            {
                let ghost before = out@;
                assert(list@.take(i + 1).drop_last() =~= list@.take(i as int));
                match parse_i64(&list[i]) {
                    Some(v) => {
                        out.push(v);
                        assert(ints(out@) =~= ints(before).push(v as int));
                    },
                    None => {},
                }
                i += 1;
            }
            assert(list@.take(list@.len() as int) =~= list@);
        },
        None => {
            assert(ints(out@) =~= Seq::<int>::empty());
        },
    }
    out
}

/// The identifier of an optional JSON value; an empty string gives none.
pub fn parse_opt_id(value: &Option<JsonId>) -> (r: Option<i64>)
    ensures
        opt_int(r) == match *value {
            Some(v) => json_id_value(v),
            None => None,
        },
{
    match value {
        Some(v) => parse_i64(v),
        None => None,
    }
}

// ---------------------------------------------------------------------------
// Creating, restoring and switching sensors
// ---------------------------------------------------------------------------

/// The sensor categories the service knows.
pub open spec fn valid_category(c: Seq<char>) -> bool {
    c == "particle"@ || c == "biocapt"@ || c == "analog"@
}

/// A sensor to insert.
pub struct NewSensor {
    pub category: String,
    pub custom_id: String,
    pub description: String,
    pub group_id: Option<i64>,
    pub channel: Option<String>,
    pub unit: Option<String>,
    pub acquire_mode: Option<String>,
    /// A particle counter gets a default device configuration right away.
    pub seed_config: bool,
}

/// Checks and normalises a sensor to create: the category and custom id are
/// trimmed, the category must be `particle`, `biocapt` or `analog` and the
/// custom id must not be empty; the description defaults to the custom id.
pub fn new_sensor(
    category: &str,
    custom_id: &str,
    description: Option<String>,
    group_id: &Option<JsonId>,
    channel: Option<String>,
    unit: Option<String>,
    acquire_mode: Option<String>,
) -> (r: Result<NewSensor, PharmaError>)
    ensures
        !valid_category(trim(category@)) ==> r == Err::<NewSensor, PharmaError>(
            PharmaError::InvalidCategory,
        ),
        valid_category(trim(category@)) && trim(custom_id@).len() == 0 ==> r == Err::<
            NewSensor,
            PharmaError,
        >(PharmaError::EmptyCustomId),
        valid_category(trim(category@)) && trim(custom_id@).len() > 0 <==> r is Ok,
        r matches Ok(s) ==> {
            &&& s.category@ == trim(category@)
            &&& s.custom_id@ == trim(custom_id@)
            &&& s.description@ == trim(
                match description {
                    Some(d) => d@,
                    None => trim(custom_id@),
                },
            )
            &&& opt_int(s.group_id) == match *group_id {
                Some(v) => json_id_value(v),
                None => None,
            }
            &&& s.channel == channel
            &&& s.unit == unit
            &&& s.acquire_mode == acquire_mode
            &&& s.seed_config == (trim(category@) == "particle"@)
        },
{
    let cat = trim_string(category);
    let cc = chars_of(cat.as_str());
    let is_particle = eq_str(cc.as_slice(), "particle");
    if !(is_particle || eq_str(cc.as_slice(), "biocapt") || eq_str(cc.as_slice(), "analog")) {
        return Err(PharmaError::InvalidCategory);
    }
    let id = trim_string(custom_id);
    if id.as_str().is_empty() {
        return Err(PharmaError::EmptyCustomId);
    }
    let desc = match description {
        Some(d) => trim_string(d.as_str()),
        None => trim_string(id.as_str()),
    };
    Ok(
        NewSensor {
            category: cat,
            custom_id: id,
            description: desc,
            group_id: parse_opt_id(group_id),
            channel,
            unit,
            acquire_mode,
            seed_config: is_particle,
        },
    )
}

/// Whether a custom id may be used for a new sensor: not while an active sensor
/// has it, nor while a deleted one does (that one should be restored instead).
pub fn check_custom_id_free(active_exists: bool, deleted_exists: bool) -> (r: Result<
    (),
    PharmaError,
>)
    ensures
        active_exists ==> r == Err::<(), PharmaError>(PharmaError::DuplicateCustomId),
        !active_exists && deleted_exists ==> r == Err::<(), PharmaError>(
            PharmaError::ArchivedCustomId,
        ),
        !active_exists && !deleted_exists ==> r is Ok,
{
    if active_exists {
        Err(PharmaError::DuplicateCustomId)
    } else if deleted_exists {
        Err(PharmaError::ArchivedCustomId)
    } else {
        Ok(())
    }
}

/// Whether a deleted sensor may be restored: not while another active sensor
/// has its custom id.
pub fn check_restore(conflict_exists: bool) -> (r: Result<(), PharmaError>)
    ensures
        conflict_exists <==> r == Err::<(), PharmaError>(PharmaError::RestoreConflict),
        !conflict_exists <==> r is Ok,
{
    if conflict_exists {
        Err(PharmaError::RestoreConflict)
    } else {
        Ok(())
    }
}

/// The power action a request names; anything but `on`, `off` and `cleaning`
/// is refused.
pub fn power_update(action: &str) -> (r: Result<PowerAction, PharmaError>)
    ensures
        match power_action_of(action@) {
            Some(a) => r == Ok::<PowerAction, PharmaError>(a),
            None => r == Err::<PowerAction, PharmaError>(PharmaError::InvalidPowerAction),
        },
{
    match PowerAction::parse(action) {
        Some(a) => Ok(a),
        None => Err(PharmaError::InvalidPowerAction),
    }
}

/// A power action applied to sensors picked one by one and by room.
pub struct BatchPowerPlan {
    pub action: PowerAction,
    pub sensor_ids: Vec<i64>,
    pub room_ids: Vec<i64>,
}

/// Plans a batch power change: the action must be valid, and at least one sensor
/// or room must be given.
pub fn batch_power_plan(
    action: &str,
    room_ids: &Option<Vec<JsonId>>,
    sensor_ids: &Option<Vec<JsonId>>,
) -> (r: Result<BatchPowerPlan, PharmaError>)
    ensures
        power_action_of(action@) is None ==> r matches Err(PharmaError::InvalidPowerAction),
        power_action_of(action@) is Some && opt_id_list(*room_ids).len() == 0 && opt_id_list(
            *sensor_ids,
        ).len() == 0 ==> r matches Err(PharmaError::NothingSelected),
        r is Ok <==> power_action_of(action@) is Some && (opt_id_list(*room_ids).len() > 0
            || opt_id_list(*sensor_ids).len() > 0),
        r matches Ok(p) ==> {
            &&& Some(p.action) == power_action_of(action@)
            &&& ints(p.room_ids@) == opt_id_list(*room_ids)
            &&& ints(p.sensor_ids@) == opt_id_list(*sensor_ids)
        },
{
    let a = match power_update(action) {
        Ok(a) => a,
        Err(e) => {
            return Err(e);
        },
    };
    let rooms = parse_id_list(room_ids);
    let sensors = parse_id_list(sensor_ids);
    if rooms.len() == 0 && sensors.len() == 0 {
        return Err(PharmaError::NothingSelected);
    }
    Ok(BatchPowerPlan { action: a, sensor_ids: sensors, room_ids: rooms })
}

// ---------------------------------------------------------------------------
// Limits and recipes
// ---------------------------------------------------------------------------

/// The sensor a limit is set for; a value that gives no identifier is refused.
pub fn limit_sensor_id(value: &JsonId) -> (r: Result<i64, PharmaError>)
    ensures
        match json_id_value(*value) {
            Some(v) => (r matches Ok(x) && x == v),
            None => r == Err::<i64, PharmaError>(PharmaError::InvalidSensorId),
        },
{
    match parse_i64(value) {
        Some(v) => Ok(v),
        None => Err(PharmaError::InvalidSensorId),
    }
}

/// The trimmed name of a new recipe, which must not be empty.
pub fn recipe_name(name: &str) -> (r: Result<String, PharmaError>)
    ensures
        trim(name@).len() == 0 ==> r == Err::<String, PharmaError>(PharmaError::EmptyRecipeName),
        trim(name@).len() > 0 ==> (r matches Ok(n) && n@ == trim(name@)),
{
    let n = trim_string(name);
    if n.as_str().is_empty() {
        Err(PharmaError::EmptyRecipeName)
    } else {
        Ok(n)
    }
}

/// The room a live-signal request names, read as a decimal `i64`.
pub fn room_id_param(room_id: &Option<String>) -> (r: Result<i64, PharmaError>)
    ensures
        match *room_id {
            Some(s) => match parse_int(s@, true, i64::MIN as int, i64::MAX as int) {
                Some(v) => (r matches Ok(x) && x == v),
                None => r == Err::<i64, PharmaError>(PharmaError::MissingRoomId),
            },
            None => r == Err::<i64, PharmaError>(PharmaError::MissingRoomId),
        },
{
    match room_id {
        Some(s) => {
            let c = chars_of(s.as_str());
            match crate::text::parse_i64(c.as_slice()) {
                Some(v) => Ok(v),
                None => Err(PharmaError::MissingRoomId),
            }
        },
        None => Err(PharmaError::MissingRoomId),
    }
}

// ---------------------------------------------------------------------------
// Device configuration
// ---------------------------------------------------------------------------

/// The configuration of a sensor's acquisition device (its flow rate and its
/// thresholds, which are decimal numbers, are kept beside it by the caller).
pub struct DeviceConfig {
    pub facility_node_id: Option<i64>,
    pub device_name: String,
    pub device_code: String,
    pub instrument_type: Option<String>,
    pub update_interval_sec: i32,
    pub slave_address: Option<String>,
    pub plc_ip: Option<String>,
    pub data_unit: Option<String>,
    pub data_type: String,
    pub data_length: i32,
    pub protocol: String,
    pub decimal_places: i32,
    pub cleanroom_class: Option<String>,
    pub serial_number: Option<String>,
    pub calibration_date: Option<String>,
    pub operating_mode: String,
    pub production_state: String,
}

/// The content of a device configuration.
pub struct DeviceConfigView {
    pub facility_node_id: Option<i64>,
    pub device_name: Seq<char>,
    pub device_code: Seq<char>,
    pub instrument_type: Option<Seq<char>>,
    pub update_interval_sec: i32,
    pub slave_address: Option<Seq<char>>,
    pub plc_ip: Option<Seq<char>>,
    pub data_unit: Option<Seq<char>>,
    pub data_type: Seq<char>,
    pub data_length: i32,
    pub protocol: Seq<char>,
    pub decimal_places: i32,
    pub cleanroom_class: Option<Seq<char>>,
    pub serial_number: Option<Seq<char>>,
    pub calibration_date: Option<Seq<char>>,
    pub operating_mode: Seq<char>,
    pub production_state: Seq<char>,
}

impl View for DeviceConfig {
    type V = DeviceConfigView;

    open spec fn view(&self) -> DeviceConfigView {
        DeviceConfigView {
            facility_node_id: self.facility_node_id,
            device_name: self.device_name@,
            device_code: self.device_code@,
            instrument_type: opt_view(self.instrument_type),
            update_interval_sec: self.update_interval_sec,
            slave_address: opt_view(self.slave_address),
            plc_ip: opt_view(self.plc_ip),
            data_unit: opt_view(self.data_unit),
            data_type: self.data_type@,
            data_length: self.data_length,
            protocol: self.protocol@,
            decimal_places: self.decimal_places,
            cleanroom_class: opt_view(self.cleanroom_class),
            serial_number: opt_view(self.serial_number),
            calibration_date: opt_view(self.calibration_date),
            operating_mode: self.operating_mode@,
            production_state: self.production_state@,
        }
    }
}

/// The configuration shown for a sensor that has none stored yet.
pub open spec fn default_config() -> DeviceConfigView {
    DeviceConfigView {
        facility_node_id: None,
        device_name: Seq::empty(),
        device_code: Seq::empty(),
        instrument_type: Some("尘埃粒子0.5"@),
        update_interval_sec: 60,
        slave_address: Some(Seq::empty()),
        plc_ip: Some("PLC1"@),
        data_unit: Some("pt/3"@),
        data_type: "ulong"@,
        data_length: 4,
        protocol: "ModbusTCP"@,
        decimal_places: 0,
        cleanroom_class: Some("Class A"@),
        serial_number: Some(Seq::empty()),
        calibration_date: None,
        operating_mode: "Operational"@,
        production_state: "production"@,
    }
}

/// The configuration stored for a particle counter when it is created: named and
/// coded by its custom id, read as a four-byte `ulong` over Modbus TCP every
/// minute.
pub open spec fn seeded_config(custom_id: Seq<char>) -> DeviceConfigView {
    DeviceConfigView {
        facility_node_id: None,
        device_name: custom_id,
        device_code: custom_id,
        instrument_type: Some("尘埃粒子0.5"@),
        update_interval_sec: 60,
        slave_address: None,
        plc_ip: None,
        data_unit: Some("pt/3"@),
        data_type: "ulong"@,
        data_length: 4,
        protocol: "ModbusTCP"@,
        decimal_places: 0,
        cleanroom_class: None,
        serial_number: None,
        calibration_date: None,
        operating_mode: "Operational"@,
        production_state: "production"@,
    }
}

fn some_text(s: &str) -> (r: Option<String>)
    ensures
        opt_view(r) == Some(s@),
{
    Some(String::from_str(s))
}

/// The configuration shown for a sensor without a stored one.
pub fn default_device_config() -> (r: DeviceConfig)
    ensures
        r@ == default_config(),
{
    let r = DeviceConfig {
        facility_node_id: None,
        device_name: String::new(),
        device_code: String::new(),
        instrument_type: some_text("尘埃粒子0.5"),
        update_interval_sec: 60,
        slave_address: Some(String::new()),
        plc_ip: some_text("PLC1"),
        data_unit: some_text("pt/3"),
        data_type: String::from_str("ulong"),
        data_length: 4,
        protocol: String::from_str("ModbusTCP"),
        decimal_places: 0,
        cleanroom_class: some_text("Class A"),
        serial_number: Some(String::new()),
        calibration_date: None,
        operating_mode: String::from_str("Operational"),
        production_state: String::from_str("production"),
    };
    assert(r@.device_name =~= Seq::<char>::empty());
    assert(r@.device_code =~= Seq::<char>::empty());
    assert(r@.slave_address->0 =~= Seq::<char>::empty());
    assert(r@.serial_number->0 =~= Seq::<char>::empty());
    r
}

/// The configuration stored with a new particle counter.
pub fn seeded_device_config(custom_id: &str) -> (r: DeviceConfig)
    ensures
        r@ == seeded_config(custom_id@),
{
    DeviceConfig {
        facility_node_id: None,
        device_name: String::from_str(custom_id),
        device_code: String::from_str(custom_id),
        instrument_type: some_text("尘埃粒子0.5"),
        update_interval_sec: 60,
        slave_address: None,
        plc_ip: None,
        data_unit: some_text("pt/3"),
        data_type: String::from_str("ulong"),
        data_length: 4,
        protocol: String::from_str("ModbusTCP"),
        decimal_places: 0,
        cleanroom_class: None,
        serial_number: None,
        calibration_date: None,
        operating_mode: String::from_str("Operational"),
        production_state: String::from_str("production"),
    }
}

/// The configuration to show for a sensor: a missing sensor is an error, a
/// missing configuration shows the defaults.
pub fn shown_device_config(sensor_exists: bool, stored: Option<DeviceConfig>) -> (r: Result<
    DeviceConfig,
    PharmaError,
>)
    ensures
        !sensor_exists ==> r matches Err(PharmaError::SensorNotFound),
        sensor_exists ==> (r matches Ok(c) && c@ == match stored {
            Some(s) => s@,
            None => default_config(),
        }),
{
    if !sensor_exists {
        return Err(PharmaError::SensorNotFound);
    }
    match stored {
        Some(c) => Ok(c),
        None => Ok(default_device_config()),
    }
}

/// A device configuration as submitted; absent values take their defaults.
pub struct DeviceConfigInput {
    pub facility_node_id: Option<JsonId>,
    pub device_name: Option<String>,
    pub device_code: Option<String>,
    pub instrument_type: Option<String>,
    pub update_interval_sec: Option<i32>,
    pub slave_address: Option<String>,
    pub plc_ip: Option<String>,
    pub data_unit: Option<String>,
    pub data_type: Option<String>,
    pub data_length: Option<i32>,
    pub protocol: Option<String>,
    pub decimal_places: Option<i32>,
    pub cleanroom_class: Option<String>,
    pub serial_number: Option<String>,
    pub calibration_date: Option<String>,
    pub operating_mode: Option<String>,
    pub production_state: Option<String>,
}

/// The text of an optional string, with a default.
pub open spec fn text_or(v: Option<String>, default: Seq<char>) -> Seq<char> {
    match v {
        Some(s) => s@,
        None => default,
    }
}

/// An optional number, with a default.
pub open spec fn num_or(v: Option<i32>, default: i32) -> i32 {
    match v {
        Some(n) => n,
        None => default,
    }
}

fn string_or(v: Option<String>, default: &str) -> (r: String)
    ensures
        r@ == text_or(v, default@),
{
    match v {
        Some(s) => s,
        None => String::from_str(default),
    }
}

/// The configuration a submission stores: the node id is read as an identifier,
/// name and code default to empty, interval to 60 s, type to `ulong`, length to
/// 4, protocol to `ModbusTCP`, decimals to 0, mode to `Operational` and state to
/// `production`.
pub fn device_config_from_input(input: DeviceConfigInput) -> (r: DeviceConfig)
    ensures
        opt_int(r.facility_node_id) == match input.facility_node_id {
            Some(v) => json_id_value(v),
            None => None,
        },
        r@.device_name == text_or(input.device_name, Seq::empty()),
        r@.device_code == text_or(input.device_code, Seq::empty()),
        r.instrument_type == input.instrument_type,
        r.update_interval_sec == num_or(input.update_interval_sec, 60),
        r.slave_address == input.slave_address,
        r.plc_ip == input.plc_ip,
        r.data_unit == input.data_unit,
        r@.data_type == text_or(input.data_type, "ulong"@),
        r.data_length == num_or(input.data_length, 4),
        r@.protocol == text_or(input.protocol, "ModbusTCP"@),
        r.decimal_places == num_or(input.decimal_places, 0),
        r.cleanroom_class == input.cleanroom_class,
        r.serial_number == input.serial_number,
        r.calibration_date == input.calibration_date,
        r@.operating_mode == text_or(input.operating_mode, "Operational"@),
        r@.production_state == text_or(input.production_state, "production"@),
{
    let node = parse_opt_id(&input.facility_node_id);
    let name = string_or(input.device_name, "");
    let code = string_or(input.device_code, "");
    proof {
        reveal_strlit("");
    }
    DeviceConfig {
        facility_node_id: node,
        device_name: name,
        device_code: code,
        instrument_type: input.instrument_type,
        update_interval_sec: match input.update_interval_sec {
            Some(n) => n,
            None => 60,
        },
        slave_address: input.slave_address,
        plc_ip: input.plc_ip,
        data_unit: input.data_unit,
        data_type: string_or(input.data_type, "ulong"),
        data_length: match input.data_length {
            Some(n) => n,
            None => 4,
        },
        protocol: string_or(input.protocol, "ModbusTCP"),
        decimal_places: match input.decimal_places {
            Some(n) => n,
            None => 0,
        },
        cleanroom_class: input.cleanroom_class,
        serial_number: input.serial_number,
        calibration_date: input.calibration_date,
        operating_mode: string_or(input.operating_mode, "Operational"),
        production_state: string_or(input.production_state, "production"),
    }
}

impl DeviceConfig {
    /// Saving the configuration also renames the sensor (and sets its unit) when
    /// a device name or a data unit was given.
    pub fn updates_sensor(&self) -> (r: bool)
        ensures
            r == (self.device_name@.len() > 0 || self.data_unit is Some),
    {
        !self.device_name.as_str().is_empty() || self.data_unit.is_some()
    }
}

/// The key of a submitted threshold: its metric (default `0.5um`) and how its
/// alarm is enabled (default `unlimited`).
pub fn threshold_key(metric_key: Option<String>, alarm_enable: Option<String>) -> (r: (
    String,
    String,
))
    ensures
        r.0@ == text_or(metric_key, "0.5um"@),
        r.1@ == text_or(alarm_enable, "unlimited"@),
{
    (string_or(metric_key, "0.5um"), string_or(alarm_enable, "unlimited"))
}

// ---------------------------------------------------------------------------
// Live room view: metric and card statuses
// ---------------------------------------------------------------------------

/// The status of a reading, a card or a room.
#[derive(PartialEq, Eq, Structural, Clone, Copy, Debug)]
pub enum MetricStatus {
    Normal,
    Warning,
    Alarm,
}

/// How serious a status is.
pub open spec fn severity(s: MetricStatus) -> nat {
    match s {
        MetricStatus::Normal => 0,
        MetricStatus::Warning => 1,
        MetricStatus::Alarm => 2,
    }
}

/// The more serious of two statuses.
pub open spec fn worse(a: MetricStatus, b: MetricStatus) -> MetricStatus {
    if severity(b) > severity(a) {
        b
    } else {
        a
    }
}

/// The status of a card (or room): the most serious status of its readings (or
/// cards), `Normal` when there are none.
pub open spec fn worst(s: Seq<MetricStatus>) -> MetricStatus
    decreases s.len(),
{
    if s.len() == 0 {
        MetricStatus::Normal
    } else {
        worse(worst(s.drop_last()), s.last())
    }
}

impl MetricStatus {
    /// The name the API reports.
    pub fn name(&self) -> (r: &'static str)
        ensures
            r@ == match self {
                MetricStatus::Normal => "normal"@,
                MetricStatus::Warning => "warning"@,
                MetricStatus::Alarm => "alarm"@,
            },
    {
        match self {
            MetricStatus::Normal => "normal",
            MetricStatus::Warning => "warning",
            MetricStatus::Alarm => "alarm",
        }
    }

    /// The label shown beside a reading.
    pub fn label(&self) -> (r: &'static str)
        ensures
            r@ == match self {
                MetricStatus::Normal => "正常"@,
                MetricStatus::Warning => "预警"@,
                MetricStatus::Alarm => "报警"@,
            },
    {
        match self {
            MetricStatus::Normal => "正常",
            MetricStatus::Warning => "预警",
            MetricStatus::Alarm => "报警",
        }
    }
}

/// Which limits a reading crosses: above the high or below the low alarm and
/// warning limits (an absent limit is never crossed).
pub struct LimitCrossing {
    pub above_alarm_high: bool,
    pub below_alarm_low: bool,
    pub above_warn_high: bool,
    pub below_warn_low: bool,
}

/// The status of a reading: none for `unlimited` or `disabled` thresholds, else
/// alarm before warning.
pub open spec fn reading_status(enable: Seq<char>, c: LimitCrossing) -> MetricStatus {
    if enable == "unlimited"@ || enable == "disabled"@ {
        MetricStatus::Normal
    } else if c.above_alarm_high || c.below_alarm_low {
        MetricStatus::Alarm
    } else if c.above_warn_high || c.below_warn_low {
        MetricStatus::Warning
    } else {
        MetricStatus::Normal
    }
}

/// The status of a reading from how its thresholds are enabled and which limits
/// it crosses.
pub fn metric_status(enable: &str, crossing: &LimitCrossing) -> (r: MetricStatus)
    ensures
        r == reading_status(enable@, *crossing),
{
    let c = chars_of(enable);
    if eq_str(c.as_slice(), "unlimited") || eq_str(c.as_slice(), "disabled") {
        MetricStatus::Normal
    } else if crossing.above_alarm_high || crossing.below_alarm_low {
        MetricStatus::Alarm
    } else if crossing.above_warn_high || crossing.below_warn_low {
        MetricStatus::Warning
    } else {
        MetricStatus::Normal
    }
}

/// The most serious of the statuses, `Normal` when there are none.
pub fn card_status(statuses: &[MetricStatus]) -> (r: MetricStatus)
    ensures
        r == worst(statuses@),
{
    let mut acc = MetricStatus::Normal;
    let mut i: usize = 0;
    while i < statuses.len()
        invariant
            i <= statuses@.len(),
            acc == worst(statuses@.take(i as int)),
        decreases statuses.len() - i,
    {
        assert(statuses@.take(i + 1).drop_last() =~= statuses@.take(i as int));
        let s = statuses[i];
        match s {
            MetricStatus::Alarm => {
                acc = MetricStatus::Alarm;
            },
            MetricStatus::Warning => {
                if acc != MetricStatus::Alarm {
                    acc = MetricStatus::Warning;
                }
            },
            MetricStatus::Normal => {},
        }
        i += 1;
    }
    assert(statuses@.take(statuses@.len() as int) =~= statuses@);
    acc
}

/// The first threshold, by position, that is kept for `metric`.
pub open spec fn first_key(keys: Seq<Seq<char>>, metric: Seq<char>) -> Option<int>
    decreases keys.len(),
{
    if keys.len() == 0 {
        None
    } else if keys[0] == metric {
        Some(0)
    } else {
        match first_key(keys.skip(1), metric) {
            Some(i) => Some(i + 1),
            None => None,
        }
    }
}

/// The position of the first threshold kept for `metric`, if any.
pub fn find_threshold(keys: &Vec<String>, metric: &str) -> (r: Option<usize>)
    ensures
        match r {
            Some(i) => first_key(keys@.map_values(|k: String| k@), metric@) == Some(i as int),
            None => first_key(keys@.map_values(|k: String| k@), metric@) is None,
        },
{
    let ghost all = keys@.map_values(|k: String| k@);
    let m = chars_of(metric);
    let mut i: usize = 0;
    assert(all.skip(0) =~= all);
    while i < keys.len()
        invariant
            i <= keys@.len(),
            m@ == metric@,
            all == keys@.map_values(|k: String| k@),
            first_key(all, metric@) == match first_key(all.skip(i as int), metric@) {
                Some(j) => Some(j + i),
                None => None::<int>,
            },
        decreases keys.len() - i,
    {
        let c = chars_of(keys[i].as_str());
        assert(all.skip(i as int)[0] == keys@[i as int]@);
        if crate::text::eq(c.as_slice(), m.as_slice()) {
            return Some(i);
        }
        assert(all.skip(i as int).skip(1) =~= all.skip(i + 1));
        i += 1;
    }
    assert(all.skip(i as int).len() == 0);
    None
}

/// The code shown on a card: the configured device code, or the sensor's custom
/// id when that is empty.
pub fn card_device_code(device_code: &str, custom_id: &str) -> (r: String)
    ensures
        r@ == if device_code@.len() == 0 {
            custom_id@
        } else {
            device_code@
        },
{
    if device_code.is_empty() {
        String::from_str(custom_id)
    } else {
        String::from_str(device_code)
    }
}

/// The label of a particle-size reading: `Part >= <metric>`.
pub fn metric_label(metric: &str) -> (r: String)
    ensures
        r@ == "Part >= "@ + metric@,
{
    let mut r = String::from_str("Part >= ");
    r.append(metric);
    r
}

/// A reading's status: with `unlimited` or `disabled` thresholds it is always
/// `Normal`. Otherwise crossing either alarm limit (above the high one or below the
/// low one) gives `Alarm`, whatever the warning limits say; crossing only a warning
/// limit gives `Warning`; crossing none gives `Normal`.
pub proof fn law_reading_status(enable: Seq<char>, c: LimitCrossing)
    ensures
        (enable == "unlimited"@ || enable == "disabled"@) ==> reading_status(enable, c)
            == MetricStatus::Normal,
        !(enable == "unlimited"@ || enable == "disabled"@) ==> {
            &&& (c.above_alarm_high || c.below_alarm_low) <==> reading_status(enable, c)
                == MetricStatus::Alarm
            &&& (!c.above_alarm_high && !c.below_alarm_low && (c.above_warn_high
                || c.below_warn_low)) <==> reading_status(enable, c) == MetricStatus::Warning
            &&& (!c.above_alarm_high && !c.below_alarm_low && !c.above_warn_high
                && !c.below_warn_low) <==> reading_status(enable, c) == MetricStatus::Normal
        },
{
}

/// Crossing more limits never lowers a reading's status.
pub proof fn law_reading_status_monotone(enable: Seq<char>, a: LimitCrossing, b: LimitCrossing)
    requires
        a.above_alarm_high ==> b.above_alarm_high,
        a.below_alarm_low ==> b.below_alarm_low,
        a.above_warn_high ==> b.above_warn_high,
        a.below_warn_low ==> b.below_warn_low,
    ensures
        severity(reading_status(enable, a)) <= severity(reading_status(enable, b)),
{
}

/// The status of a group is `Alarm` exactly when one member is, `Warning` exactly
/// when none is in alarm and one warns, and `Normal` otherwise.
pub proof fn law_worst_status(s: Seq<MetricStatus>)
    ensures
        worst(s) == MetricStatus::Alarm <==> s.contains(MetricStatus::Alarm),
        worst(s) == MetricStatus::Warning <==> !s.contains(MetricStatus::Alarm) && s.contains(
            MetricStatus::Warning,
        ),
        worst(s) == MetricStatus::Normal <==> !s.contains(MetricStatus::Alarm) && !s.contains(
            MetricStatus::Warning,
        ),
    decreases s.len(),
{
    if s.len() > 0 {
        law_worst_status(s.drop_last());
        let d = s.drop_last();
        assert(forall|x: MetricStatus| s.contains(x) <==> (d.contains(x) || s.last() == x)) by {
            assert forall|x: MetricStatus| s.contains(x) implies (d.contains(x) || s.last() == x) by {
                if s.contains(x) {
                    let i = choose|i: int| 0 <= i < s.len() && s[i] == x;
                    if i < s.len() - 1 {
                        assert(d[i] == x);
                    }
                }
            }
            assert forall|x: MetricStatus| (d.contains(x) || s.last() == x) implies s.contains(x) by {
                if d.contains(x) {
                    let i = choose|i: int| 0 <= i < d.len() && d[i] == x;
                    assert(s[i] == x);
                } else {
                    assert(s[s.len() - 1] == x);
                }
            }
        }
    }
}

/// Splitting the readings of a group in two and combining the statuses of the
/// parts gives the status of the whole: the order of the members does not matter.
pub proof fn law_worst_split(a: Seq<MetricStatus>, b: Seq<MetricStatus>)
    ensures
        worst(a + b) == worse(worst(a), worst(b)),
    decreases b.len(),
{
    if b.len() == 0 {
        assert(a + b =~= a);
    } else {
        law_worst_split(a, b.drop_last());
        assert((a + b).drop_last() =~= a + b.drop_last());
    }
}

} // verus!
