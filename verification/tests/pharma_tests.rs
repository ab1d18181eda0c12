use pnpro::modbus::PowerAction;
use pnpro::pharma::{
    batch_power_plan, card_device_code, card_status, check_custom_id_free, check_restore, default_device_config,
    device_config_from_input, find_threshold, limit_sensor_id, metric_label, metric_status, new_sensor, or_system,
    parse_i64, parse_id_list, parse_opt_id, power_update, recipe_name, room_id_param, seeded_device_config,
    shown_device_config, threshold_key, CategoryQuery, DeviceConfigInput, JsonId, LimitCrossing, MetricStatus,
    PharmaError, StatusFilter,
};

fn query(cat: Option<&str>, inc: Option<&str>, only: Option<&str>) -> CategoryQuery {
    CategoryQuery {
        category: cat.map(|s| s.to_string()),
        include_deleted: inc.map(|s| s.to_string()),
        only_deleted: only.map(|s| s.to_string()),
    }
}

#[test]
fn listing_filters() {
    assert_eq!(query(None, None, None).status_filter(), StatusFilter::Active);
    assert_eq!(query(None, Some("1"), None).status_filter(), StatusFilter::Any);
    assert_eq!(query(None, Some("yes"), None).status_filter(), StatusFilter::Active);
    assert_eq!(query(None, Some("1"), Some("true")).status_filter(), StatusFilter::Deleted);
    assert_eq!(StatusFilter::Any.condition(), "status IN (0, 1)");
    assert_eq!(query(Some(""), None, None).category_filter(), None);
    assert_eq!(query(Some("particle"), None, None).category_filter(), Some("particle".to_string()));
}

#[test]
fn json_identifiers() {
    assert_eq!(parse_i64(&JsonId::Int(5)), Some(5));
    assert_eq!(parse_i64(&JsonId::Text("-12".into())), Some(-12));
    assert_eq!(parse_i64(&JsonId::Text(" 12".into())), None);
    assert_eq!(parse_i64(&JsonId::Text("99999999999999999999".into())), None);
    assert_eq!(parse_i64(&JsonId::Number), None);
    assert_eq!(parse_i64(&JsonId::Other), None);
    let list = Some(vec![JsonId::Int(1), JsonId::Text("2".into()), JsonId::Other, JsonId::Text("x".into()), JsonId::Int(3)]);
    assert_eq!(parse_id_list(&list), vec![1, 2, 3]);
    assert!(parse_id_list(&None).is_empty());
    assert_eq!(parse_opt_id(&Some(JsonId::Text(String::new()))), None);
    assert_eq!(parse_opt_id(&Some(JsonId::Text("8".into()))), Some(8));
    assert_eq!(parse_opt_id(&None), None);
}

#[test]
fn sensor_creation_checks() {
    let s = new_sensor(" particle ", " PC-1 ", None, &Some(JsonId::Text("4".into())), None, None, None).unwrap();
    assert_eq!((s.category.as_str(), s.custom_id.as_str(), s.description.as_str()), ("particle", "PC-1", "PC-1"));
    assert_eq!(s.group_id, Some(4));
    assert!(s.seed_config);
    let a = new_sensor("analog", "A1", Some("  Temp ".into()), &None, Some("ch1".into()), None, None).unwrap();
    assert_eq!(a.description, "Temp");
    assert!(!a.seed_config);
    assert_eq!(new_sensor("gas", "X", None, &None, None, None, None).err(), Some(PharmaError::InvalidCategory));
    assert_eq!(new_sensor("biocapt", "  ", None, &None, None, None, None).err(), Some(PharmaError::EmptyCustomId));
    assert_eq!(check_custom_id_free(true, true), Err(PharmaError::DuplicateCustomId));
    assert_eq!(check_custom_id_free(false, true), Err(PharmaError::ArchivedCustomId));
    assert_eq!(check_custom_id_free(false, false), Ok(()));
    assert_eq!(check_restore(true), Err(PharmaError::RestoreConflict));
    assert_eq!(PharmaError::ArchivedCustomId.message(), "该编号存在于已删除设备，请先恢复或换一个编号");
    assert_eq!(PharmaError::SensorNotFound.code(), 4040);
    assert_eq!(PharmaError::EmptyCustomId.code(), 10000);
}

#[test]
fn power_requests() {
    assert_eq!(power_update("off"), Ok(PowerAction::Off));
    assert_eq!(power_update("reboot"), Err(PharmaError::InvalidPowerAction));
    let p = batch_power_plan("cleaning", &Some(vec![JsonId::Text("3".into())]), &None).unwrap();
    assert_eq!(p.action, PowerAction::Cleaning);
    assert_eq!(p.room_ids, vec![3]);
    assert!(p.sensor_ids.is_empty());
    assert_eq!(batch_power_plan("on", &Some(vec![JsonId::Other]), &Some(vec![])).err(), Some(PharmaError::NothingSelected));
    assert_eq!(batch_power_plan("up", &Some(vec![JsonId::Int(1)]), &None).err(), Some(PharmaError::InvalidPowerAction));
}

#[test]
fn limits_recipes_rooms() {
    assert_eq!(limit_sensor_id(&JsonId::Text("17".into())), Ok(17));
    assert_eq!(limit_sensor_id(&JsonId::Other), Err(PharmaError::InvalidSensorId));
    assert_eq!(recipe_name("  Batch A "), Ok("Batch A".to_string()));
    assert_eq!(recipe_name(" "), Err(PharmaError::EmptyRecipeName));
    assert_eq!(room_id_param(&Some("5".into())), Ok(5));
    assert_eq!(room_id_param(&Some("r5".into())), Err(PharmaError::MissingRoomId));
    assert_eq!(room_id_param(&None), Err(PharmaError::MissingRoomId));
    assert_eq!(or_system(None), "system");
    assert_eq!(or_system(Some("qa".into())), "qa");
}

#[test]
fn device_configuration_defaults() {
    let d = default_device_config();
    assert_eq!(d.instrument_type.as_deref(), Some("尘埃粒子0.5"));
    assert_eq!((d.update_interval_sec, d.data_length, d.decimal_places), (60, 4, 0));
    assert_eq!((d.plc_ip.as_deref(), d.data_unit.as_deref(), d.cleanroom_class.as_deref()), (Some("PLC1"), Some("pt/3"), Some("Class A")));
    assert_eq!((d.data_type.as_str(), d.protocol.as_str(), d.operating_mode.as_str(), d.production_state.as_str()), ("ulong", "ModbusTCP", "Operational", "production"));
    assert_eq!(d.device_name, "");
    let s = seeded_device_config("PC-7");
    assert_eq!((s.device_name.as_str(), s.device_code.as_str()), ("PC-7", "PC-7"));
    assert!(s.plc_ip.is_none());
    assert_eq!(shown_device_config(false, None).err(), Some(PharmaError::SensorNotFound));
    assert_eq!(shown_device_config(true, None).unwrap().protocol, "ModbusTCP");
    assert_eq!(shown_device_config(true, Some(seeded_device_config("Z"))).unwrap().device_code, "Z");
}

#[test]
fn submitted_configuration() {
    let input = DeviceConfigInput {
        facility_node_id: Some(JsonId::Text("12".into())),
        device_name: Some("Counter".into()),
        device_code: None,
        instrument_type: None,
        update_interval_sec: None,
        slave_address: Some("2".into()),
        plc_ip: Some("10.0.0.2".into()),
        data_unit: None,
        data_type: None,
        data_length: Some(2),
        protocol: None,
        decimal_places: None,
        cleanroom_class: None,
        serial_number: None,
        calibration_date: Some("2024-02-01".into()),
        operating_mode: None,
        production_state: Some("rest".into()),
    };
    let c = device_config_from_input(input);
    assert_eq!(c.facility_node_id, Some(12));
    assert_eq!((c.device_name.as_str(), c.device_code.as_str()), ("Counter", ""));
    assert_eq!((c.update_interval_sec, c.data_length, c.decimal_places), (60, 2, 0));
    assert_eq!((c.data_type.as_str(), c.protocol.as_str(), c.operating_mode.as_str(), c.production_state.as_str()), ("ulong", "ModbusTCP", "Operational", "rest"));
    assert!(c.updates_sensor());
    assert!(!default_device_config().updates_sensor() || default_device_config().data_unit.is_some());
    assert_eq!(threshold_key(None, None), ("0.5um".to_string(), "unlimited".to_string()));
    assert_eq!(threshold_key(Some("5.0um".into()), Some("enabled".into())), ("5.0um".to_string(), "enabled".to_string()));
}

fn crossing(ah: bool, al: bool, wh: bool, wl: bool) -> LimitCrossing {
    LimitCrossing { above_alarm_high: ah, below_alarm_low: al, above_warn_high: wh, below_warn_low: wl }
}

#[test]
fn reading_statuses() {
    assert_eq!(metric_status("enabled", &crossing(true, false, true, false)), MetricStatus::Alarm);
    assert_eq!(metric_status("enabled", &crossing(false, false, false, true)), MetricStatus::Warning);
    assert_eq!(metric_status("enabled", &crossing(false, false, false, false)), MetricStatus::Normal);
    assert_eq!(metric_status("unlimited", &crossing(true, true, true, true)), MetricStatus::Normal);
    assert_eq!(metric_status("disabled", &crossing(true, false, false, false)), MetricStatus::Normal);
    assert_eq!(MetricStatus::Warning.label(), "预警");
    assert_eq!(MetricStatus::Alarm.name(), "alarm");
}

#[test]
fn card_and_room_statuses() {
    let (n, w, a) = (MetricStatus::Normal, MetricStatus::Warning, MetricStatus::Alarm);
    assert_eq!(card_status(&[]), n);
    assert_eq!(card_status(&[n, w, n]), w);
    assert_eq!(card_status(&[a, w]), a);
    assert_eq!(card_status(&[w, a, n]), a);
}

#[test]
fn threshold_lookup_and_labels() {
    let keys = vec!["0.5um".to_string(), "5.0um".to_string(), "0.5um".to_string()];
    assert_eq!(find_threshold(&keys, "0.5um"), Some(0));
    assert_eq!(find_threshold(&keys, "5.0um"), Some(1));
    assert_eq!(find_threshold(&keys, "1.0um"), None);
    assert_eq!(card_device_code("", "PC-1"), "PC-1");
    assert_eq!(card_device_code("D-1", "PC-1"), "D-1");
    assert_eq!(metric_label("0.5um"), "Part >= 0.5um");
}
