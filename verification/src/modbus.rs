//! Modbus TCP / RTU framing, response parsing and the settings of the poller.

use crate::text::{
    all_digits, chars_of, contains_char, contains_str, eq_ignore_ascii_case, eq_ignore_case,
    has_infix, has_prefix, last_index_of, lemma_last_index_of, parse_int, parse_u16, parse_u32,
    parse_u64, rfind_char, slice_chars, starts_with, string_from, to_ascii_upper, to_uppercase,
    trim, trim_chars, unicode_upper,
};
use vstd::prelude::*;

verus! {

// ---------------------------------------------------------------------------
// CRC-16/MODBUS
// ---------------------------------------------------------------------------

/// One bit step of the CRC: shift right, folding in the polynomial 0xA001 when the
/// low bit was set.
pub open spec fn crc_shift(crc: u16) -> u16 {
    if crc & 1 != 0 {
        (crc >> 1) ^ 0xA001
    } else {
        crc >> 1
    }
}

/// `n` bit steps.
pub open spec fn crc_steps(crc: u16, n: nat) -> u16
    decreases n,
{
    if n == 0 {
        crc
    } else {
        crc_shift(crc_steps(crc, (n - 1) as nat))
    }
}

/// The CRC after one more byte.
pub open spec fn crc_byte(crc: u16, b: u8) -> u16 {
    crc_steps(crc ^ (b as u16), 8)
}

/// CRC-16/MODBUS of `data` (initial value 0xFFFF, reflected polynomial 0xA001).
pub open spec fn crc16(data: Seq<u8>) -> u16
    decreases data.len(),
{
    if data.len() == 0 {
        0xFFFF
    } else {
        crc_byte(crc16(data.drop_last()), data.last())
    }
}

/// CRC-16/MODBUS of `data`.
pub fn modbus_crc16(data: &[u8]) -> (r: u16)
    ensures
        r == crc16(data@),
{
    let mut crc: u16 = 0xFFFF;
    let mut i: usize = 0;
    assert(data@.take(0) =~= Seq::<u8>::empty());
    while i < data.len()
        invariant
            i <= data@.len(),
            crc == crc16(data@.take(i as int)),
        decreases data.len() - i,
    {
        let b = data[i];
        let start: u16 = crc ^ (b as u16);
        crc = start;
        let mut k: usize = 0;
        while k < 8
            invariant
                k <= 8,
                crc == crc_steps(start, k as nat),
            decreases 8 - k,
        {
            if crc & 0x0001 != 0 {
                crc = (crc >> 1) ^ 0xA001;
            } else {
                crc = crc >> 1;
            }
            k += 1;
        }
        assert(data@.take(i + 1).drop_last() =~= data@.take(i as int));
        i += 1;
    }
    assert(data@.take(data@.len() as int) =~= data@);
    crc
}

// ---------------------------------------------------------------------------
// Errors
// ---------------------------------------------------------------------------

/// Why a Modbus exchange failed.
#[derive(Clone, Copy, PartialEq, Eq, Debug)]
pub enum ModbusError {
    /// The MBAP length field is below 2 (`响应长度异常`).
    ResponseLength,
    /// The device answered with an exception; the exception code (0 when absent).
    Exception(u8),
    /// The response does not start with the function code (or is too short); the
    /// function code that was expected.
    InvalidResponse(u8),
    /// Fewer data bytes than the byte count announces; the function code.
    IncompleteResponse(u8),
    /// An RTU response shorter than 5 bytes; its length.
    RtuTooShort(usize),
    /// The RTU checksum does not match.
    RtuCrc { expect: u16, got: u16 },
    /// The RTU response comes from another unit; its unit address.
    RtuUnitMismatch(u8),
}

// ---------------------------------------------------------------------------
// Request PDUs and frames
// ---------------------------------------------------------------------------

/// The big-endian bytes of a 16-bit value.
pub open spec fn be16(v: u16) -> Seq<u8> {
    seq![(v / 256) as u8, (v % 256) as u8]
}

/// The PDU of a request with a function code and two 16-bit fields (address and
/// quantity for reads, address and value for a single-register write).
pub open spec fn request_pdu(function: u8, address: u16, value: u16) -> Seq<u8> {
    seq![function] + be16(address) + be16(value)
}

/// Builds a request PDU: the function code, then address and value big-endian.
pub fn register_request(function: u8, address: u16, value: u16) -> (r: Vec<u8>)
    ensures
        r@ == request_pdu(function, address, value),
{
    let mut pdu: Vec<u8> = Vec::new();
    pdu.push(function);
    pdu.push((address / 256) as u8);
    pdu.push((address % 256) as u8);
    pdu.push((value / 256) as u8);
    pdu.push((value % 256) as u8);
    assert(pdu@ =~= request_pdu(function, address, value));
    pdu
}

/// A Modbus TCP request: transaction id, protocol 0, the length of unit id and PDU
/// (as a 16-bit field), the unit id, then the PDU.
pub open spec fn tcp_frame(tid: u16, unit: u8, pdu: Seq<u8>) -> Seq<u8> {
    be16(tid) + be16(0) + be16(((pdu.len() + 1) % 65536) as u16) + seq![unit] + pdu
}

/// Builds a Modbus TCP request frame.
pub fn tcp_request(tid: u16, unit: u8, pdu: &[u8]) -> (r: Vec<u8>)
    ensures
        r@ == tcp_frame(tid, unit, pdu@),
{
    let len: u16 = (((pdu.len() as u128) + 1) % 65536) as u16;
    let mut req: Vec<u8> = Vec::new();
    req.push((tid / 256) as u8);
    req.push((tid % 256) as u8);
    req.push(0);
    req.push(0);
    req.push((len / 256) as u8);
    req.push((len % 256) as u8);
    req.push(unit);
    let ghost head = req@;
    let mut i: usize = 0;
    while i < pdu.len()
        invariant
            i <= pdu@.len(),
            req@ == head + pdu@.take(i as int),
        decreases pdu.len() - i,
    {
        req.push(pdu[i]);
        i += 1;
        assert(req@ =~= head + pdu@.take(i as int));
    }
    assert(pdu@.take(pdu@.len() as int) =~= pdu@);
    assert(head =~= be16(tid) + be16(0) + be16(((pdu@.len() + 1) % 65536) as u16) + seq![unit]);
    req
}

/// The number of PDU bytes that follow a 7-byte MBAP response header, or
/// `ResponseLength` when its length field is below 2.
pub fn tcp_response_body_len(header: &[u8]) -> (r: Result<usize, ModbusError>)
    requires
        header@.len() == 7,
    ensures
        ({
            let len = header@[4] as int * 256 + header@[5] as int;
            if len < 2 {
                r == Err::<usize, ModbusError>(ModbusError::ResponseLength)
            } else {
                r == Ok::<usize, ModbusError>((len - 1) as usize)
            }
        }),
{
    let len: usize = (header[4] as usize) * 256 + (header[5] as usize);
    if len < 2 {
        Err(ModbusError::ResponseLength)
    } else {
        Ok(len - 1)
    }
}

/// A response PDU reporting an exception: its function code has the high bit set.
pub open spec fn is_exception(pdu: Seq<u8>) -> bool {
    pdu.len() > 0 && pdu[0] & 0x80 == 0x80
}

/// The exception code of a response PDU (0 when it has none).
pub open spec fn exception_code(pdu: Seq<u8>) -> u8 {
    if pdu.len() > 1 {
        pdu[1]
    } else {
        0
    }
}

/// The PDU of a response, unless it reports an exception.
pub fn response_pdu(pdu: Vec<u8>) -> (r: Result<Vec<u8>, ModbusError>)
    ensures
        is_exception(pdu@) ==> r == Err::<Vec<u8>, ModbusError>(
            ModbusError::Exception(exception_code(pdu@)),
        ),
        !is_exception(pdu@) ==> (r matches Ok(p) && p@ == pdu@),
{
    if pdu.len() > 0 && pdu[0] & 0x80 == 0x80 {
        let code: u8 = if pdu.len() > 1 {
            pdu[1]
        } else {
            0
        };
        return Err(ModbusError::Exception(code));
    }
    Ok(pdu)
}

/// The registers of a read response: after the function code and the byte count
/// `bc`, the first `bc / 2` big-endian pairs.
pub open spec fn response_registers(resp: Seq<u8>) -> Seq<u16> {
    Seq::new(
        (resp[1] as nat) / 2,
        |k: int| (resp[2 + 2 * k] as int * 256 + resp[3 + 2 * k] as int) as u16,
    )
}

/// Reads the registers of a read response for `function`: the response must start
/// with the function code (and hold a byte count), and hold as many data bytes as
/// the count announces.
pub fn decode_registers(function: u8, resp: &[u8]) -> (r: Result<Vec<u16>, ModbusError>)
    ensures
        (resp@.len() < 2 || resp@[0] != function) ==> r == Err::<Vec<u16>, ModbusError>(
            ModbusError::InvalidResponse(function),
        ),
        (resp@.len() >= 2 && resp@[0] == function && resp@.len() < 2 + resp@[1]) ==> r == Err::<
            Vec<u16>,
            ModbusError,
        >(ModbusError::IncompleteResponse(function)),
        (resp@.len() >= 2 && resp@[0] == function && resp@.len() >= 2 + resp@[1]) ==> (r matches Ok(
            regs,
        ) && regs@ == response_registers(resp@)),
{
    if resp.len() < 2 || resp[0] != function {
        return Err(ModbusError::InvalidResponse(function));
    }
    let bc = resp[1] as usize;
    if resp.len() < 2 + bc {
        return Err(ModbusError::IncompleteResponse(function));
    }
    let mut out: Vec<u16> = Vec::new();
    let mut i: usize = 2;
    while i + 1 < 2 + bc
        invariant
            2 <= i,
            i % 2 == 0,
            bc == resp@[1],
            2 + bc <= resp@.len(),
            out@.len() == (i - 2) / 2,
            i <= bc + 2,
            forall|k: int|
                0 <= k < out@.len() ==> #[trigger] out@[k] == (resp@[2 + 2 * k] as int * 256
                    + resp@[3 + 2 * k] as int) as u16,
        decreases 2 + bc - i,
    {
        let v: u16 = (resp[i] as u16) * 256 + (resp[i + 1] as u16);
        out.push(v);
        i += 2;
    }
    assert(out@.len() == bc / 2);
    assert(out@ =~= response_registers(resp@));
    Ok(out)
}

/// Checks the echo of a single-register write: at least 5 bytes starting with 0x06.
pub fn check_write_response(resp: &[u8]) -> (r: Result<(), ModbusError>)
    ensures
        r is Ok <==> (resp@.len() >= 5 && resp@[0] == 6),
        r is Err ==> r == Err::<(), ModbusError>(ModbusError::InvalidResponse(6)),
{
    if resp.len() < 5 || resp[0] != 0x06 {
        return Err(ModbusError::InvalidResponse(6));
    }
    Ok(())
}

/// A Modbus RTU frame: unit address, PDU, then the CRC of both, low byte first.
pub open spec fn rtu_frame(unit: u8, pdu: Seq<u8>) -> Seq<u8> {
    let body = seq![unit] + pdu;
    let crc = crc16(body);
    body + seq![(crc % 256) as u8, (crc / 256) as u8]
}

/// Builds a Modbus RTU request frame.
pub fn rtu_request(unit: u8, pdu: &[u8]) -> (r: Vec<u8>)
    ensures
        r@ == rtu_frame(unit, pdu@),
{
    let mut frame: Vec<u8> = Vec::new();
    frame.push(unit);
    let mut i: usize = 0;
    while i < pdu.len()
        invariant
            i <= pdu@.len(),
            frame@ == seq![unit] + pdu@.take(i as int),
        decreases pdu.len() - i,
    {
        frame.push(pdu[i]);
        i += 1;
        assert(frame@ =~= seq![unit] + pdu@.take(i as int));
    }
    assert(pdu@.take(pdu@.len() as int) =~= pdu@);
    let crc = modbus_crc16(frame.as_slice());
    frame.push((crc & 0xFF) as u8);
    frame.push((crc >> 8) as u8);
    assert((crc & 0xFF) == crc % 256) by (bit_vector);
    assert((crc >> 8) == crc / 256) by (bit_vector);
    assert(frame@ =~= rtu_frame(unit, pdu@));
    frame
}

/// The PDU carried by an RTU response for `unit`, or why it is refused: shorter than
/// 5 bytes, a checksum mismatch, another unit, or an exception.
pub open spec fn rtu_response(unit: u8, data: Seq<u8>) -> Result<Seq<u8>, ModbusError> {
    let n = data.len();
    if n < 5 {
        Err(ModbusError::RtuTooShort(n as usize))
    } else {
        let body = data.take(n - 2);
        let got = (data[n - 2] as int + data[n - 1] as int * 256) as u16;
        if got != crc16(body) {
            Err(ModbusError::RtuCrc { expect: crc16(body), got })
        } else if body[0] != unit {
            Err(ModbusError::RtuUnitMismatch(body[0]))
        } else if is_exception(body.skip(1)) {
            Err(ModbusError::Exception(exception_code(body.skip(1))))
        } else {
            Ok(body.skip(1))
        }
    }
}

/// Checks an RTU response and returns the PDU it carries.
pub fn rtu_response_pdu(unit: u8, data: &[u8]) -> (r: Result<Vec<u8>, ModbusError>)
    ensures
        match r {
            Ok(p) => rtu_response(unit, data@) == Ok::<Seq<u8>, ModbusError>(p@),
            Err(e) => rtu_response(unit, data@) == Err::<Seq<u8>, ModbusError>(e),
        },
{
    let n = data.len();
    if n < 5 {
        return Err(ModbusError::RtuTooShort(n));
    }
    let body = slice_bytes(data, 0, n - 2);
    let got: u16 = (data[n - 2] as u16) | ((data[n - 1] as u16) << 8);
    let lo = data[n - 2];
    let hi = data[n - 1];
    assert(((lo as u16) | ((hi as u16) << 8)) == (lo as u16) + (hi as u16) * 256) by (bit_vector);
    let expect = modbus_crc16(body.as_slice());
    if got != expect {
        return Err(ModbusError::RtuCrc { expect, got });
    }
    if body[0] != unit {
        return Err(ModbusError::RtuUnitMismatch(body[0]));
    }
    let pdu = slice_bytes(body.as_slice(), 1, body.len());
    assert(pdu@ =~= body@.skip(1));
    response_pdu(pdu)
}

/// The bytes `v[from..to]`.
pub fn slice_bytes(v: &[u8], from: usize, to: usize) -> (r: Vec<u8>)
    requires
        from <= to <= v@.len(),
    ensures
        r@ == v@.subrange(from as int, to as int),
{
    let mut r: Vec<u8> = Vec::new();
    let mut i: usize = from;
    while i < to
        invariant
            from <= i <= to <= v@.len(),
            r@ == v@.subrange(from as int, i as int),
        decreases to - i,
    {
        r.push(v[i]);
        i += 1;
    }
    r
}

/// The length of the complete RTU response at the start of `acc`, if it is complete:
/// an exception response is 5 bytes; a read-input (0x04) response is 3 header bytes,
/// the announced data bytes and 2 CRC bytes. Nothing is complete below 5 bytes.
pub open spec fn rtu_frame_end(acc: Seq<u8>) -> Option<int> {
    if acc.len() < 5 {
        None
    } else if acc[1] & 0x80 == 0x80 {
        Some(5)
    } else if acc[1] == 4 && 3 + acc[2] + 2 <= acc.len() {
        Some(3 + acc[2] + 2)
    } else {
        None
    }
}

/// How many received bytes make up a complete RTU response, if they do yet.
pub fn rtu_frame_length(acc: &[u8]) -> (r: Option<usize>)
    ensures
        match r {
            Some(n) => rtu_frame_end(acc@) == Some(n as int),
            None => rtu_frame_end(acc@) is None,
        },
{
    if acc.len() < 5 {
        return None;
    }
    if acc[1] & 0x80 == 0x80 {
        return Some(5);
    }
    if acc[1] == 0x04 {
        let expect: usize = 3 + (acc[2] as usize) + 2;
        if acc.len() >= expect {
            return Some(expect);
        }
    }
    None
}

// ---------------------------------------------------------------------------
// Endpoints and settings
// ---------------------------------------------------------------------------

/// The placeholder device names that are not addresses.
pub open spec fn is_placeholder(t: Seq<char>) -> bool {
    eq_ignore_case(t, "PLC1"@) || eq_ignore_case(t, "PLC2"@)
}

/// A configured address looks like a host: after trimming it is not empty, not a
/// placeholder, and contains `.` or `:` or is all digits.
pub open spec fn host_like(s: Seq<char>) -> bool {
    let t = trim(s);
    t.len() > 0 && !is_placeholder(t) && (t.contains('.') || t.contains(':') || all_digits(t))
}

/// Whether a configured address looks like a host.
pub fn looks_like_host(s: &str) -> (r: bool)
    ensures
        r == host_like(s@),
{
    let c = chars_of(s);
    let t = trim_chars(c.as_slice());
    if t.len() == 0 {
        return false;
    }
    if eq_ignore_ascii_case(t.as_slice(), "PLC1") || eq_ignore_ascii_case(t.as_slice(), "PLC2") {
        return false;
    }
    contains_char(t.as_slice(), '.') || contains_char(t.as_slice(), ':')
        || crate::text::all_digit_chars(t.as_slice())
}

/// The default Modbus TCP port.
pub const DEFAULT_PORT: u16 = 502;

/// The host and port of a configured PLC address: `host:port` when the text after
/// the last `:` is a port and the host is non-empty without `:`, otherwise the whole
/// trimmed address with port 502; `None` when it does not look like a host.
pub open spec fn endpoint_of(plc: Seq<char>) -> Option<(Seq<char>, u16)> {
    let t = trim(plc);
    if !host_like(t) {
        None
    } else {
        match last_index_of(t, ':') {
            Some(i) => {
                let h = t.take(i);
                match parse_int(t.skip(i + 1), false, 0, u16::MAX as int) {
                    Some(port) => if h.len() > 0 && !h.contains(':') {
                        Some((h, port as u16))
                    } else {
                        Some((t, 502u16))
                    },
                    None => Some((t, 502u16)),
                }
            },
            None => Some((t, 502u16)),
        }
    }
}

/// Parses a configured PLC address into host and port.
pub fn parse_endpoint(plc_ip: &str) -> (r: Option<(String, u16)>)
    ensures
        match r {
            Some((h, p)) => endpoint_of(plc_ip@) == Some((h@, p)),
            None => endpoint_of(plc_ip@) is None,
        },
{
    let c = chars_of(plc_ip);
    let t = trim_chars(c.as_slice());
    let ts = string_from(t.as_slice());
    if !looks_like_host(ts.as_str()) {
        return None;
    }
    match rfind_char(t.as_slice(), ':') {
        Some(i) => {
            proof {
                lemma_last_index_of(t@, ':');
            }
            let h = slice_chars(t.as_slice(), 0, i);
            let p = slice_chars(t.as_slice(), i + 1, t.len());
            assert(h@ =~= t@.take(i as int));
            assert(p@ =~= t@.skip(i + 1));
            match parse_u16(p.as_slice()) {
                Some(port) => {
                    if h.len() > 0 && !contains_char(h.as_slice(), ':') {
                        return Some((string_from(h.as_slice()), port));
                    }
                    Some((ts, DEFAULT_PORT))
                },
                None => Some((ts, DEFAULT_PORT)),
            }
        },
        None => Some((ts, DEFAULT_PORT)),
    }
}

/// The unit id configured as the slave address: its trimmed value as a number in
/// 1..=247, else 1.
pub open spec fn unit_id_of(slave: Option<String>) -> u8 {
    match slave {
        Some(s) => match parse_int(trim(s@), false, 0, u16::MAX as int) {
            Some(n) => if 1 <= n <= 247 {
                n as u8
            } else {
                1
            },
            None => 1,
        },
        None => 1,
    }
}

/// The Modbus unit id for a configured slave address.
pub fn parse_unit_id(slave: &Option<String>) -> (r: u8)
    ensures
        r == unit_id_of(*slave),
{
    match slave {
        Some(s) => {
            let c = chars_of(s.as_str());
            let t = trim_chars(c.as_slice());
            match parse_u16(t.as_slice()) {
                Some(n) => if 1 <= n && n <= 247 {
                    n as u8
                } else {
                    1
                },
                None => 1,
            }
        },
        None => 1,
    }
}

/// The default RTU baud rate.
pub const DEFAULT_RTU_BAUD: u32 = 19200;

/// The default baud rate that a `MODBUS_RTU_BAUD` setting selects.
pub open spec fn baud_setting(env: Option<Seq<char>>) -> u32 {
    match env {
        Some(e) => match parse_int(e, false, 0, u32::MAX as int) {
            Some(b) => b as u32,
            None => 19200,
        },
        None => 19200,
    }
}

/// The view of an optional string slice.
pub open spec fn opt_str_view(s: Option<&str>) -> Option<Seq<char>> {
    match s {
        Some(x) => Some(x@),
        None => None,
    }
}

/// A serial port name: it starts with `COM` (any case) or with `/dev/`.
pub open spec fn is_serial_name(p: Seq<char>) -> bool {
    has_prefix(p.map_values(|c: char| crate::text::ascii_upper(c)), "COM"@) || has_prefix(
        p,
        "/dev/"@,
    )
}

/// The baud rate written after a separator, or the default when it does not parse.
pub open spec fn baud_or(text: Seq<char>, default: u32) -> u32 {
    match parse_int(text, false, 0, u32::MAX as int) {
        Some(b) => b as u32,
        None => default,
    }
}

/// The serial port and baud rate of a configured RTU address: `PORT@BAUD` (the
/// port is trimmed and must not be empty), else `PORT:BAUD` split at the last `:`
/// when the trimmed part before it is a serial port name (so a host address is
/// not taken for one), else a bare serial port name at the default baud. A baud
/// that does not parse gives the default. Empty addresses and the TCP placeholders
/// give `None`.
pub open spec fn serial_endpoint_of(raw: Seq<char>, env_baud: Option<Seq<char>>) -> Option<
    (Seq<char>, u32),
> {
    let t = trim(raw);
    let default = baud_setting(env_baud);
    if t.len() == 0 || is_placeholder(t) {
        None
    } else {
        let at = match last_index_of(t, '@') {
            Some(i) => {
                let port = trim(t.take(i));
                if port.len() > 0 {
                    Some((port, baud_or(t.skip(i + 1), default)))
                } else {
                    None
                }
            },
            None => None,
        };
        let colon = match last_index_of(t, ':') {
            Some(i) => {
                let port = trim(t.take(i));
                if is_serial_name(port) {
                    Some((port, baud_or(t.skip(i + 1), default)))
                } else {
                    None
                }
            },
            None => None,
        };
        if at is Some {
            at
        } else if colon is Some {
            colon
        } else if is_serial_name(t) {
            Some((t, default))
        } else {
            None
        }
    }
}

fn default_baud(env_baud: Option<&str>) -> (r: u32)
    ensures
        r == baud_setting(opt_str_view(env_baud)),
{
    match env_baud {
        Some(e) => {
            let c = chars_of(e);
            match parse_u32(c.as_slice()) {
                Some(b) => b,
                None => DEFAULT_RTU_BAUD,
            }
        },
        None => DEFAULT_RTU_BAUD,
    }
}

/// Parses a configured RTU address into serial port and baud rate; `env_baud` is the
/// `MODBUS_RTU_BAUD` setting.
pub fn parse_serial_endpoint(raw: &str, env_baud: Option<&str>) -> (r: Option<(String, u32)>)
    ensures
        match r {
            Some((p, b)) => serial_endpoint_of(raw@, opt_str_view(env_baud)) == Some((p@, b)),
            None => serial_endpoint_of(raw@, opt_str_view(env_baud)) is None,
        },
{
    let c = chars_of(raw);
    let t = trim_chars(c.as_slice());
    if t.len() == 0 {
        return None;
    }
    if eq_ignore_ascii_case(t.as_slice(), "PLC1") || eq_ignore_ascii_case(t.as_slice(), "PLC2") {
        return None;
    }
    let default = default_baud(env_baud);
    if let Some(i) = rfind_char(t.as_slice(), '@') {
        proof {
            lemma_last_index_of(t@, '@');
        }
        let port_raw = slice_chars(t.as_slice(), 0, i);
        let baud_raw = slice_chars(t.as_slice(), i + 1, t.len());
        assert(port_raw@ =~= t@.take(i as int));
        assert(baud_raw@ =~= t@.skip(i + 1));
        let baud = match parse_u32(baud_raw.as_slice()) {
            Some(b) => b,
            None => default,
        };
        let port = trim_chars(port_raw.as_slice());
        if port.len() > 0 {
            return Some((string_from(port.as_slice()), baud));
        }
    }
    if let Some(i) = rfind_char(t.as_slice(), ':') {
        proof {
            lemma_last_index_of(t@, ':');
        }
        let port_raw = slice_chars(t.as_slice(), 0, i);
        let baud_raw = slice_chars(t.as_slice(), i + 1, t.len());
        assert(port_raw@ =~= t@.take(i as int));
        assert(baud_raw@ =~= t@.skip(i + 1));
        let port = trim_chars(port_raw.as_slice());
        if serial_name(port.as_slice()) {
            let baud = match parse_u32(baud_raw.as_slice()) {
                Some(b) => b,
                None => default,
            };
            return Some((string_from(port.as_slice()), baud));
        }
    }
    if serial_name(t.as_slice()) {
        return Some((string_from(t.as_slice()), default));
    }
    None
}

fn serial_name(p: &[char]) -> (r: bool)
    ensures
        r == is_serial_name(p@),
{
    let upper = to_ascii_upper(p);
    starts_with(upper.as_slice(), "COM") || starts_with(p, "/dev/")
}

/// The device path prefix for Windows serial ports.
pub open spec fn device_namespace() -> Seq<char> {
    seq!['\\', '\\', '.', '\\']
}

/// `\\.\PORT` for a port whose name starts with `COM` (any case) and lacks the
/// prefix; any other port unchanged.
pub open spec fn normalized_port(port: Seq<char>) -> Seq<char> {
    if has_prefix(port.map_values(|c: char| crate::text::ascii_upper(c)), "COM"@) && !has_prefix(
        port,
        device_namespace(),
    ) {
        device_namespace() + port
    } else {
        port
    }
}

/// The path to open for a serial port.
pub fn normalize_serial_port(port: &str) -> (r: String)
    ensures
        r@ == normalized_port(port@),
{
    let c = chars_of(port);
    let upper = to_ascii_upper(c.as_slice());
    let prefixed = starts_with(c.as_slice(), "\\\\.\\");
    proof {
        reveal_strlit("\\\\.\\");
        assert("\\\\.\\"@ =~= device_namespace());
    }
    if starts_with(upper.as_slice(), "COM") && !prefixed {
        let mut s = String::from_str("\\\\.\\");
        s.append(port);
        return s;
    }
    String::from_str(port)
}

/// The 32-bit value of two registers, high word first.
pub fn u32_from_regs(high: u16, low: u16) -> (r: u32)
    ensures
        r == high as int * 65536 + low as int,
{
    let r: u32 = ((high as u32) << 16) | (low as u32);
    assert(((high as u32) << 16) | (low as u32) == (high as u32) * 65536 + (low as u32)) by (
    bit_vector);
    r
}

/// The number of input registers an RTU poll reads: the `MODBUS_RTU_INPUT_COUNT`
/// setting as a `u16` (16 when unset or invalid), clamped to 10..=20.
pub open spec fn rtu_input_count_of(env: Option<Seq<char>>) -> u16 {
    let n = match env {
        Some(e) => match parse_int(e, false, 0, u16::MAX as int) {
            Some(v) => v,
            None => 16,
        },
        None => 16,
    };
    (if n < 10 {
        10
    } else if n > 20 {
        20
    } else {
        n
    }) as u16
}

/// The number of input registers an RTU poll reads.
pub fn rtu_input_count(env: Option<&str>) -> (r: u16)
    ensures
        r == rtu_input_count_of(opt_str_view(env)),
{
    let n: u16 = match env {
        Some(e) => {
            let c = chars_of(e);
            match parse_u16(c.as_slice()) {
                Some(v) => v,
                None => 16,
            }
        },
        None => 16,
    };
    if n < 10 {
        10
    } else if n > 20 {
        20
    } else {
        n
    }
}

/// Whether the `MODBUS_POLL_ENABLED` setting enables polling: unset, `Y`, `1` or
/// `true` in any ASCII case.
pub fn poll_enabled(env: Option<&str>) -> (r: bool)
    ensures
        r == match opt_str_view(env) {
            Some(e) => e == "Y"@ || e == "1"@ || eq_ignore_case(e, "true"@),
            None => true,
        },
{
    match env {
        Some(e) => {
            let c = chars_of(e);
            crate::text::eq_str(c.as_slice(), "Y") || crate::text::eq_str(c.as_slice(), "1")
                || eq_ignore_ascii_case(c.as_slice(), "true")
        },
        None => {
            proof {
                reveal_strlit("Y");
            }
            true
        },
    }
}

/// The default polling period in seconds: the `MODBUS_POLL_INTERVAL_SEC` setting as
/// a `u64` (5 when unset or invalid), at least 1.
pub fn poll_interval_secs(env: Option<&str>) -> (r: u64)
    ensures
        ({
            let n = match opt_str_view(env) {
                Some(e) => match parse_int(e, false, 0, u64::MAX as int) {
                    Some(v) => v,
                    None => 5,
                },
                None => 5,
            };
            r == if n < 1 {
                1
            } else {
                n
            }
        }),
{
    let n: u64 = match env {
        Some(e) => {
            let c = chars_of(e);
            match parse_u64(c.as_slice()) {
                Some(v) => v,
                None => 5,
            }
        },
        None => 5,
    };
    if n < 1 {
        1
    } else {
        n
    }
}

// ---------------------------------------------------------------------------
// Poll targets and readings
// ---------------------------------------------------------------------------

/// A particle counter to poll, with its device configuration.
pub struct PollTarget {
    pub sensor_id: i64,
    pub custom_id: String,
    pub device_code: Option<String>,
    pub device_name: Option<String>,
    pub plc_ip: Option<String>,
    pub slave_address: Option<String>,
    pub protocol: String,
    pub update_interval_sec: i32,
    pub power_on: i8,
}

/// The code a target is logged under: its device code when set and non-empty,
/// otherwise its custom id.
pub open spec fn device_code_view(t: PollTarget) -> Seq<char> {
    match t.device_code {
        Some(c) => if c@.len() > 0 {
            c@
        } else {
            t.custom_id@
        },
        None => t.custom_id@,
    }
}

/// The code a target is logged under.
pub fn device_code_of(t: &PollTarget) -> (r: String)
    ensures
        r@ == device_code_view(*t),
{
    match &t.device_code {
        Some(c) => if !c.as_str().is_empty() {
            c.clone()
        } else {
            t.custom_id.clone()
        },
        None => t.custom_id.clone(),
    }
}

/// Whether a protocol name (uppercased) contains `part`.
pub open spec fn protocol_has(protocol: Seq<char>, part: Seq<char>) -> bool {
    has_infix(unicode_upper(protocol), part)
}

fn protocol_contains(protocol: &str, part: &str) -> (r: bool)
    ensures
        r == protocol_has(protocol@, part@),
{
    let u = to_uppercase(protocol);
    let c = chars_of(u.as_str());
    contains_str(c.as_slice(), part)
}

impl PollTarget {
    /// Whether the target is polled over RTU (its protocol names `MODBUSRTU`);
    /// otherwise over TCP.
    pub fn uses_rtu(&self) -> (r: bool)
        ensures
            r == protocol_has(self.protocol@, "MODBUSRTU"@),
    {
        protocol_contains(self.protocol.as_str(), "MODBUSRTU")
    }
}

/// The operating state shown for a sensor.
#[derive(Clone, Copy, PartialEq, Eq, Debug)]
pub enum RuntimeState {
    Idle,
    Sampling,
    Cleaning,
    Offline,
}

impl RuntimeState {
    /// The stored name of the state.
    pub fn name(&self) -> (r: String)
        ensures
            r@ == match self {
                RuntimeState::Idle => "Idle"@,
                RuntimeState::Sampling => "Sampling"@,
                RuntimeState::Cleaning => "Cleaning"@,
                RuntimeState::Offline => "Offline"@,
            },
    {
        match self {
            RuntimeState::Idle => String::from_str("Idle"),
            RuntimeState::Sampling => String::from_str("Sampling"),
            RuntimeState::Cleaning => String::from_str("Cleaning"),
            RuntimeState::Offline => String::from_str("Offline"),
        }
    }
}

/// What one TCP poll of a particle counter read.
pub struct TcpReading {
    pub status_word: u16,
    pub flow_raw: u16,
    pub ch1: u32,
    pub ch2: u32,
    pub running: bool,
    pub sampling: bool,
    pub flow_alarm: bool,
    pub runtime: RuntimeState,
}

/// The first register, or 0.
pub open spec fn first_or_zero(regs: Seq<u16>) -> u16 {
    if regs.len() > 0 {
        regs[0]
    } else {
        0
    }
}

/// The reading of a TCP poll from its status, flow and particle registers.
pub open spec fn reading_of(status: Seq<u16>, flow: Seq<u16>, particle: Seq<u16>) -> TcpReading {
    let sw = first_or_zero(status);
    let sampling = sw & 0x02 != 0;
    TcpReading {
        status_word: sw,
        flow_raw: first_or_zero(flow),
        ch1: if particle.len() >= 2 {
            (particle[0] as int * 65536 + particle[1] as int) as u32
        } else {
            0
        },
        ch2: if particle.len() >= 4 {
            (particle[2] as int * 65536 + particle[3] as int) as u32
        } else {
            0
        },
        running: sw & 0x01 != 0,
        sampling,
        flow_alarm: sw & 0x1000 != 0,
        runtime: if sampling {
            RuntimeState::Sampling
        } else {
            RuntimeState::Idle
        },
    }
}

/// Interprets a TCP poll: the status word (bit 0 running, bit 1 sampling, bit 12 flow
/// alarm), the raw flow, and the two particle channels as 32-bit values from input
/// registers 0–1 and 2–3 (0 when not read). A sampling device is `Sampling`, any
/// other `Idle`.
pub fn tcp_reading(status_regs: &[u16], flow_regs: &[u16], particle: &[u16]) -> (r: TcpReading)
    ensures
        r == reading_of(status_regs@, flow_regs@, particle@),
        r.status_word == first_or_zero(status_regs@),
        r.flow_raw == first_or_zero(flow_regs@),
        r.ch1 == if particle@.len() >= 2 {
            particle@[0] as int * 65536 + particle@[1] as int
        } else {
            0
        },
        r.ch2 == if particle@.len() >= 4 {
            particle@[2] as int * 65536 + particle@[3] as int
        } else {
            0
        },
        r.running == (r.status_word & 0x01 != 0),
        r.sampling == (r.status_word & 0x02 != 0),
        r.flow_alarm == (r.status_word & 0x1000 != 0),
        r.runtime == if r.sampling {
            RuntimeState::Sampling
        } else {
            RuntimeState::Idle
        },
{
    let status_word: u16 = if status_regs.len() > 0 {
        status_regs[0]
    } else {
        0
    };
    let flow_raw: u16 = if flow_regs.len() > 0 {
        flow_regs[0]
    } else {
        0
    };
    let ch1: u32 = if particle.len() >= 2 {
        u32_from_regs(particle[0], particle[1])
    } else {
        0
    };
    let ch2: u32 = if particle.len() >= 4 {
        u32_from_regs(particle[2], particle[3])
    } else {
        0
    };
    let running = status_word & 0x01 != 0;
    let sampling = status_word & 0x02 != 0;
    let flow_alarm = status_word & (1 << 12) != 0;
    assert((1u16 << 12) == 0x1000u16) by (bit_vector);
    TcpReading {
        status_word,
        flow_raw,
        ch1,
        ch2,
        running,
        sampling,
        flow_alarm,
        runtime: if sampling {
            RuntimeState::Sampling
        } else {
            RuntimeState::Idle
        },
    }
}

// ---------------------------------------------------------------------------
// Power commands
// ---------------------------------------------------------------------------

/// A power action requested for a sensor.
#[derive(Clone, Copy, PartialEq, Eq, Debug)]
pub enum PowerAction {
    On,
    Off,
    Cleaning,
}

/// The action an action name selects.
pub open spec fn power_action_of(action: Seq<char>) -> Option<PowerAction> {
    if action == "on"@ {
        Some(PowerAction::On)
    } else if action == "off"@ {
        Some(PowerAction::Off)
    } else if action == "cleaning"@ {
        Some(PowerAction::Cleaning)
    } else {
        None
    }
}

impl PowerAction {
    /// The action named `on`, `off` or `cleaning`.
    pub fn parse(action: &str) -> (r: Option<PowerAction>)
        ensures
            r == power_action_of(action@),
    {
        let c = chars_of(action);
        if crate::text::eq_str(c.as_slice(), "on") {
            Some(PowerAction::On)
        } else if crate::text::eq_str(c.as_slice(), "off") {
            Some(PowerAction::Off)
        } else if crate::text::eq_str(c.as_slice(), "cleaning") {
            Some(PowerAction::Cleaning)
        } else {
            None
        }
    }

    /// The stored power flag: on for `on` and `cleaning`.
    pub fn power_on(&self) -> (r: i64)
        ensures
            r == match self {
                PowerAction::Off => 0int,
                _ => 1int,
            },
    {
        match self {
            PowerAction::Off => 0,
            _ => 1,
        }
    }

    /// The state shown after the action: `Cleaning` for cleaning, else `Idle`.
    pub fn runtime_state(&self) -> (r: RuntimeState)
        ensures
            r == match self {
                PowerAction::Cleaning => RuntimeState::Cleaning,
                _ => RuntimeState::Idle,
            },
    {
        match self {
            PowerAction::Cleaning => RuntimeState::Cleaning,
            _ => RuntimeState::Idle,
        }
    }

    /// The value written to the command register 40002: 11 starts, 12 stops
    /// (cleaning stops sampling first).
    pub fn command(&self) -> (r: u16)
        ensures
            r == match self {
                PowerAction::On => 11u16,
                _ => 12u16,
            },
    {
        match self {
            PowerAction::On => 11,
            _ => 12,
        }
    }
}

/// A register write that switches a counter.
pub struct PowerCommand {
    pub host: String,
    pub port: u16,
    pub unit: u8,
    pub register: u16,
    pub value: u16,
}

/// Why a power command cannot be sent.
#[derive(Clone, Copy, PartialEq, Eq, Debug)]
pub enum PowerCommandError {
    /// The protocol is not Modbus TCP.
    UnsupportedProtocol,
    /// No device address is configured (`未配置设备 IP`).
    NoAddress,
    /// The address is not a host (`设备 IP 无效`).
    InvalidAddress,
    /// Not `on`, `off` or `cleaning` (`无效动作`).
    InvalidAction,
}

/// The endpoint of a configured address, if one is configured and valid.
pub open spec fn configured_endpoint(plc_ip: Option<String>) -> Option<(Seq<char>, u16)> {
    match plc_ip {
        Some(p) => endpoint_of(p@),
        None => None,
    }
}

/// The command for a power action on a configured device: only Modbus TCP devices
/// with a valid address are switched, by writing the action's command to register
/// 1 (40002) of the configured unit.
pub fn power_command(
    plc_ip: &Option<String>,
    slave: &Option<String>,
    protocol: &str,
    action: &str,
) -> (r: Result<PowerCommand, PowerCommandError>)
    ensures
        !protocol_has(protocol@, "MODBUSTCP"@) ==> r matches Err(
            PowerCommandError::UnsupportedProtocol,
        ),
        protocol_has(protocol@, "MODBUSTCP"@) && plc_ip is None ==> r matches Err(
            PowerCommandError::NoAddress,
        ),
        protocol_has(protocol@, "MODBUSTCP"@) && plc_ip is Some && configured_endpoint(*plc_ip) is None
            ==> r matches Err(PowerCommandError::InvalidAddress),
        protocol_has(protocol@, "MODBUSTCP"@) && configured_endpoint(*plc_ip) is Some
            && power_action_of(action@) is None ==> r matches Err(PowerCommandError::InvalidAction),
        r matches Ok(c) ==> {
            &&& protocol_has(protocol@, "MODBUSTCP"@)
            &&& configured_endpoint(*plc_ip) == Some((c.host@, c.port))
            &&& power_action_of(action@) matches Some(a) && c.value == (match a {
                PowerAction::On => 11u16,
                _ => 12u16,
            })
            &&& c.unit == unit_id_of(*slave)
            &&& c.register == 1
        },
        (protocol_has(protocol@, "MODBUSTCP"@) && configured_endpoint(*plc_ip) is Some
            && power_action_of(action@) is Some) ==> r is Ok,
{
    if !protocol_contains(protocol, "MODBUSTCP") {
        return Err(PowerCommandError::UnsupportedProtocol);
    }
    let plc = match plc_ip {
        Some(p) => p,
        None => return Err(PowerCommandError::NoAddress),
    };
    let (host, port) = match parse_endpoint(plc.as_str()) {
        Some(e) => e,
        None => return Err(PowerCommandError::InvalidAddress),
    };
    let unit = parse_unit_id(slave);
    let act = match PowerAction::parse(action) {
        Some(a) => a,
        None => return Err(PowerCommandError::InvalidAction),
    };
    Ok(PowerCommand { host, port, unit, register: 1, value: act.command() })
}


// ---------------------------------------------------------------------------
// Transaction ids, poll plans and the poller
// ---------------------------------------------------------------------------

/// The counter that numbers Modbus TCP transactions.
pub struct TxCounter {
    next: u64,
}

impl TxCounter {
    /// The value the next transaction is numbered from.
    pub closed spec fn value(&self) -> u64 {
        self.next
    }

    /// The id of the next transaction: the counter's low 16 bits; the counter
    /// then moves on by one (wrapping).
    pub fn next_tid(&mut self) -> (r: u16)
        ensures
            r == old(self).value() as u16,
            final(self).value() == (if old(self).value() == u64::MAX {
                0
            } else {
                old(self).value() + 1
            }),
    {
        let tid = self.next as u16;
        self.next = self.next.wrapping_add(1);
        tid
    }
}

/// A fresh transaction counter; the first transaction is number 1.
pub fn tx_counter() -> (r: TxCounter)
    ensures
        r.value() == 1,
{
    TxCounter { next: 1 }
}

/// Why a target is skipped in a poll cycle.
#[derive(Clone, Copy, PartialEq, Eq, Debug)]
pub enum PollSkip {
    /// No address or serial port is configured.
    NoAddress,
    /// The configured address or port is not usable.
    InvalidAddress,
}

impl PollSkip {
    /// The message logged for a skipped target, which differs between TCP and RTU.
    pub fn message(&self, rtu: bool) -> (r: &'static str)
        ensures
            r@ == match (self, rtu) {
                (PollSkip::NoAddress, false) => "未配置 plcIp/设备 IP，跳过轮询"@,
                (PollSkip::InvalidAddress, false) => "plcIp 不是有效 IP/主机名（占位如 PLC1 不会轮询）"@,
                (PollSkip::NoAddress, true) => "ModbusRTU 未配置串口（请在「PLC IP」填 COM3 或 COM3@19200）"@,
                (PollSkip::InvalidAddress, true) => "串口名无效（示例：COM3 / COM3@19200）"@,
            },
    {
        match (self, rtu) {
            (PollSkip::NoAddress, false) => "未配置 plcIp/设备 IP，跳过轮询",
            (PollSkip::InvalidAddress, false) => "plcIp 不是有效 IP/主机名（占位如 PLC1 不会轮询）",
            (PollSkip::NoAddress, true) => "ModbusRTU 未配置串口（请在「PLC IP」填 COM3 或 COM3@19200）",
            (PollSkip::InvalidAddress, true) => "串口名无效（示例：COM3 / COM3@19200）",
        }
    }
}

/// Where and how a TCP target is polled.
pub struct TcpPlan {
    pub host: String,
    pub port: u16,
    pub unit: u8,
}

/// The TCP poll of a target: its address must be configured and be a host;
/// the unit id comes from its slave address.
pub fn tcp_poll_plan(t: &PollTarget) -> (r: Result<TcpPlan, PollSkip>)
    ensures
        t.plc_ip is None ==> r == Err::<TcpPlan, PollSkip>(PollSkip::NoAddress),
        t.plc_ip is Some && configured_endpoint(t.plc_ip) is None ==> r == Err::<
            TcpPlan,
            PollSkip,
        >(PollSkip::InvalidAddress),
        configured_endpoint(t.plc_ip) is Some <==> r is Ok,
        r matches Ok(p) ==> configured_endpoint(t.plc_ip) == Some((p.host@, p.port)) && p.unit
            == unit_id_of(t.slave_address),
{
    let plc = match &t.plc_ip {
        Some(p) => p,
        None => return Err(PollSkip::NoAddress),
    };
    match parse_endpoint(plc.as_str()) {
        Some((host, port)) => Ok(TcpPlan { host, port, unit: parse_unit_id(&t.slave_address) }),
        None => Err(PollSkip::InvalidAddress),
    }
}

/// Where and how an RTU target is polled.
pub struct RtuPlan {
    pub port: String,
    pub baud: u32,
    pub unit: u8,
    /// The number of input registers read from address 0.
    pub count: u16,
}

/// The RTU poll of a target: its serial port must be configured and valid; the
/// baud rate and register count come from the settings `env_baud` and
/// `env_count`.
pub fn rtu_poll_plan(t: &PollTarget, env_baud: Option<&str>, env_count: Option<&str>) -> (r:
    Result<RtuPlan, PollSkip>)
    ensures
        t.plc_ip is None ==> r == Err::<RtuPlan, PollSkip>(PollSkip::NoAddress),
        t.plc_ip matches Some(p) && serial_endpoint_of(p@, opt_str_view(env_baud)) is None ==> r
            == Err::<RtuPlan, PollSkip>(PollSkip::InvalidAddress),
        r matches Ok(plan) ==> (t.plc_ip matches Some(p) && serial_endpoint_of(
            p@,
            opt_str_view(env_baud),
        ) == Some((plan.port@, plan.baud))) && plan.unit == unit_id_of(t.slave_address)
            && plan.count == rtu_input_count_of(opt_str_view(env_count)),
        (t.plc_ip matches Some(p) && serial_endpoint_of(p@, opt_str_view(env_baud)) is Some)
            ==> r is Ok,
{
    let raw = match &t.plc_ip {
        Some(p) => p,
        None => return Err(PollSkip::NoAddress),
    };
    match parse_serial_endpoint(raw.as_str(), env_baud) {
        Some((port, baud)) => Ok(
            RtuPlan {
                port,
                baud,
                unit: parse_unit_id(&t.slave_address),
                count: rtu_input_count(env_count),
            },
        ),
        None => Err(PollSkip::InvalidAddress),
    }
}

/// The state of the background poller: whether it runs and how many cycles it
/// has started.
pub struct Poller {
    pub enabled: bool,
    pub cycle: u64,
}

impl Poller {
    /// A poller that has run no cycle yet.
    pub fn new(enabled: bool) -> (r: Poller)
        ensures
            r.enabled == enabled,
            r.cycle == 0,
    {
        Poller { enabled, cycle: 0 }
    }

    /// Starts a cycle: none while polling is off (the caller waits and asks
    /// again), else the number of the new cycle (wrapping).
    pub fn begin_cycle(&mut self) -> (r: Option<u64>)
        ensures
            final(self).enabled == old(self).enabled,
            !old(self).enabled ==> r is None && final(self).cycle == old(self).cycle,
            old(self).enabled ==> r == Some(final(self).cycle) && final(self).cycle == (if old(
                self,
            ).cycle == u64::MAX {
                0
            } else {
                old(self).cycle + 1
            }),
    {
        if !self.enabled {
            return None;
        }
        self.cycle = self.cycle.wrapping_add(1);
        Some(self.cycle)
    }
}

// ---------------------------------------------------------------------------
// One poll of a device, step by step
// ---------------------------------------------------------------------------

/// What a poll does next.
pub enum PollAction {
    /// Connect to the device (TCP) or open its serial port (RTU).
    Connect,
    /// Read holding registers (function 0x03).
    ReadHolding { address: u16, count: u16 },
    /// Read input registers (function 0x04).
    ReadInput { address: u16, count: u16 },
    /// The device did not answer: mark it offline; the poll failed.
    MarkOffline,
    /// The TCP poll succeeded with this reading: store it.
    StoreTcp(TcpReading),
    /// The RTU poll succeeded with these input registers: store them.
    StoreRtu(Vec<u16>),
    /// The poll is over; nothing is left to do.
    Finished,
}

/// Where a TCP poll stands.
#[derive(Clone, Copy, PartialEq, Eq, Debug)]
pub enum TcpPollStage {
    Connecting,
    ReadingStatus,
    ReadingFlow,
    ReadingParticles,
    Finished,
}

/// A TCP poll in progress: its stage and the registers read so far.
pub struct TcpPoll {
    pub stage: TcpPollStage,
    pub status: Vec<u16>,
    pub flow: Vec<u16>,
}

/// The registers an outcome carries, or none.
pub open spec fn regs_or_empty(outcome: Option<Vec<u16>>) -> Seq<u16> {
    match outcome {
        Some(v) => v@,
        None => Seq::empty(),
    }
}

impl TcpPoll {
    /// A TCP poll about to connect.
    pub fn new() -> (r: (TcpPoll, PollAction))
        ensures
            r.0.stage == TcpPollStage::Connecting,
            r.0.status@.len() == 0,
            r.0.flow@.len() == 0,
            r.1 is Connect,
    {
        (TcpPoll { stage: TcpPollStage::Connecting, status: Vec::new(), flow: Vec::new() },
        PollAction::Connect)
    }

    /// The next step after the outcome of the last action (`None` when it failed, the
    /// registers read when it was a read). After connecting the poll reads holding
    /// register 2 (status), then holding register 22 (flow), then input registers
    /// 9 to 12 (particle counts). Only a failed connection or a failed status read
    /// marks the device offline; a failed flow or particle read counts as no registers.
    pub fn step(self, outcome: Option<Vec<u16>>) -> (r: (TcpPoll, PollAction))
        ensures
            self.stage == TcpPollStage::Connecting ==> if outcome is Some {
                &&& r.0.stage == TcpPollStage::ReadingStatus
                &&& r.1 == (PollAction::ReadHolding { address: 2, count: 1 })
            } else {
                r.0.stage == TcpPollStage::Finished && r.1 is MarkOffline
            },
            self.stage == TcpPollStage::ReadingStatus ==> if outcome is Some {
                &&& r.0.stage == TcpPollStage::ReadingFlow
                &&& r.0.status@ == regs_or_empty(outcome)
                &&& r.1 == (PollAction::ReadHolding { address: 22, count: 1 })
            } else {
                r.0.stage == TcpPollStage::Finished && r.1 is MarkOffline
            },
            self.stage == TcpPollStage::ReadingFlow ==> {
                &&& r.0.stage == TcpPollStage::ReadingParticles
                &&& r.0.status@ == self.status@
                &&& r.0.flow@ == regs_or_empty(outcome)
                &&& r.1 == (PollAction::ReadInput { address: 9, count: 4 })
            },
            self.stage == TcpPollStage::ReadingParticles ==> {
                &&& r.0.stage == TcpPollStage::Finished
                &&& r.1 == PollAction::StoreTcp(
                    reading_of(self.status@, self.flow@, regs_or_empty(outcome)),
                )
            },
            self.stage == TcpPollStage::Finished ==> r.0.stage == TcpPollStage::Finished
                && r.1 is Finished,
    {
        match self.stage {
            TcpPollStage::Connecting => match outcome {
                Some(_) => (TcpPoll { stage: TcpPollStage::ReadingStatus, ..self },
                PollAction::ReadHolding { address: 2, count: 1 }),
                None => (TcpPoll { stage: TcpPollStage::Finished, ..self }, PollAction::MarkOffline),
            },
            TcpPollStage::ReadingStatus => match outcome {
                Some(v) => (TcpPoll { stage: TcpPollStage::ReadingFlow, status: v, flow: self.flow },
                PollAction::ReadHolding { address: 22, count: 1 }),
                None => (TcpPoll { stage: TcpPollStage::Finished, ..self }, PollAction::MarkOffline),
            },
            TcpPollStage::ReadingFlow => {
                let flow = match outcome {
                    Some(v) => v,
                    None => Vec::new(),
                };
                (TcpPoll { stage: TcpPollStage::ReadingParticles, status: self.status, flow },
                PollAction::ReadInput { address: 9, count: 4 })
            },
            TcpPollStage::ReadingParticles => {
                let particle = match outcome {
                    Some(v) => v,
                    None => Vec::new(),
                };
                let reading = tcp_reading(self.status.as_slice(), self.flow.as_slice(), particle.as_slice());
                (TcpPoll { stage: TcpPollStage::Finished, ..self }, PollAction::StoreTcp(reading))
            },
            TcpPollStage::Finished => (self, PollAction::Finished),
        }
    }
}

/// Where an RTU poll stands.
#[derive(Clone, Copy, PartialEq, Eq, Debug)]
pub enum RtuPollStage {
    Opening,
    Reading,
    Finished,
}

/// An RTU poll in progress: its stage and how many input registers it reads.
pub struct RtuPoll {
    pub stage: RtuPollStage,
    pub count: u16,
}

impl RtuPoll {
    /// An RTU poll of `count` input registers, about to open the serial port.
    pub fn new(count: u16) -> (r: (RtuPoll, PollAction))
        ensures
            r.0.stage == RtuPollStage::Opening,
            r.0.count == count,
            r.1 is Connect,
    {
        (RtuPoll { stage: RtuPollStage::Opening, count }, PollAction::Connect)
    }

    /// The next step after the outcome of the last action (`None` when it failed):
    /// once the port is open the poll reads `count` input registers from address 0
    /// and stores them; failing to open the port or to read marks the device offline.
    pub fn step(self, outcome: Option<Vec<u16>>) -> (r: (RtuPoll, PollAction))
        ensures
            r.0.count == self.count,
            self.stage == RtuPollStage::Opening ==> if outcome is Some {
                &&& r.0.stage == RtuPollStage::Reading
                &&& r.1 == (PollAction::ReadInput { address: 0, count: self.count })
            } else {
                r.0.stage == RtuPollStage::Finished && r.1 is MarkOffline
            },
            self.stage == RtuPollStage::Reading ==> {
                &&& r.0.stage == RtuPollStage::Finished
                &&& match outcome {
                    Some(v) => r.1 matches PollAction::StoreRtu(w) && w@ == v@,
                    None => r.1 is MarkOffline,
                }
            },
            self.stage == RtuPollStage::Finished ==> r.0.stage == RtuPollStage::Finished
                && r.1 is Finished,
    {
        match self.stage {
            RtuPollStage::Opening => match outcome {
                Some(_) => (RtuPoll { stage: RtuPollStage::Reading, count: self.count },
                PollAction::ReadInput { address: 0, count: self.count }),
                None => (RtuPoll { stage: RtuPollStage::Finished, count: self.count },
                PollAction::MarkOffline),
            },
            RtuPollStage::Reading => {
                let next = RtuPoll { stage: RtuPollStage::Finished, count: self.count };
                match outcome {
                    Some(v) => (next, PollAction::StoreRtu(v)),
                    None => (next, PollAction::MarkOffline),
                }
            },
            RtuPollStage::Finished => (self, PollAction::Finished),
        }
    }
}

// ---------------------------------------------------------------------------
// Laws
// ---------------------------------------------------------------------------

/// An RTU frame built for a unit is accepted back for that unit with the same PDU,
/// when the PDU has at least two bytes and reports no exception.
pub proof fn law_rtu_frame_roundtrip(unit: u8, pdu: Seq<u8>)
    requires
        pdu.len() >= 2,
        !is_exception(pdu),
    ensures
        rtu_response(unit, rtu_frame(unit, pdu)) == Ok::<Seq<u8>, ModbusError>(pdu),
{
    let body = seq![unit] + pdu;
    let crc = crc16(body);
    let frame = rtu_frame(unit, pdu);
    let n = frame.len();
    assert(frame.take(n - 2) =~= body);
    let lo = (crc % 256) as u8;
    let hi = (crc / 256) as u8;
    assert(frame[n - 2] == lo);
    assert(frame[n - 1] == hi);
    assert((lo as int + hi as int * 256) as u16 == crc);
    assert(body.skip(1) =~= pdu);
}

/// A read response is complete for the RTU reader exactly at its announced length:
/// the frame of unit, function 0x04, byte count and data is recognised as one
/// response of that length.
pub proof fn law_rtu_read_response_length(unit: u8, data: Seq<u8>)
    requires
        data.len() <= 255,
    ensures
        ({
            let pdu = seq![4u8, data.len() as u8] + data;
            let frame = rtu_frame(unit, pdu);
            rtu_frame_end(frame) == Some(frame.len() as int)
        }),
{
    let pdu = seq![4u8, data.len() as u8] + data;
    let frame = rtu_frame(unit, pdu);
    assert(frame[1] == 4u8);
    assert(frame[2] == data.len() as u8);
    assert(4u8 & 0x80 == 0) by (bit_vector);
}

/// Eight bit steps, written out.
spec fn crc_shift8(x: u16) -> u16 {
    crc_shift(crc_shift(crc_shift(crc_shift(crc_shift(crc_shift(crc_shift(crc_shift(x))))))))
}

proof fn lemma_crc_steps8(x: u16)
    ensures
        crc_steps(x, 8) == crc_shift8(x),
{
    reveal_with_fuel(crc_steps, 9);
}

proof fn lemma_crc_shift_clear(h: u16, k: u16)
    requires
        h < 256,
        1 <= k <= 8,
    ensures
        crc_shift(h << k) == h << ((k - 1) as u16),
{
    assert((h << k) & 1 == 0 && (h << k) >> 1 == h << ((k - 1) as u16)) by (bit_vector)
        requires
            h < 256,
            1 <= k <= 8,
    ;
}

/// Appending a message's CRC to it, low byte first, gives a message whose CRC is 0.
pub proof fn law_crc_residue(data: Seq<u8>)
    ensures
        ({
            let c = crc16(data);
            crc16(data.push((c % 256) as u8).push((c / 256) as u8)) == 0
        }),
{
    let c = crc16(data);
    let lo = (c % 256) as u8;
    let hi = (c / 256) as u8;
    let d1 = data.push(lo);
    let d2 = d1.push(hi);
    assert(d2.drop_last() =~= d1);
    assert(d1.drop_last() =~= data);
    let h = hi as u16;
    let x0 = c ^ (lo as u16);
    assert(x0 == h << 8u16 && h < 256) by (bit_vector)
        requires
            lo == (c % 256) as u8,
            hi == (c / 256) as u8,
            h == hi as u16,
            x0 == c ^ (lo as u16),
    ;
    lemma_crc_shift_clear(h, 8);
    lemma_crc_shift_clear(h, 7);
    lemma_crc_shift_clear(h, 6);
    lemma_crc_shift_clear(h, 5);
    lemma_crc_shift_clear(h, 4);
    lemma_crc_shift_clear(h, 3);
    lemma_crc_shift_clear(h, 2);
    lemma_crc_shift_clear(h, 1);
    assert(h << 0u16 == h) by (bit_vector);
    lemma_crc_steps8(x0);
    assert(crc16(d1) == h);
    let x1 = h ^ (hi as u16);
    assert(x1 == 0) by (bit_vector)
        requires
            h == hi as u16,
            x1 == h ^ (hi as u16),
    ;
    assert(crc_shift(0) == 0) by (bit_vector);
    lemma_crc_steps8(x1);
}

/// An RTU response that reports an exception (function byte with the 0x80 bit set)
/// is refused with its exception code, for a frame with a valid CRC addressed to the
/// right unit.
pub proof fn law_rtu_exception_refused(unit: u8, pdu: Seq<u8>)
    requires
        pdu.len() >= 2,
        pdu[0] & 0x80 == 0x80,
    ensures
        rtu_response(unit, rtu_frame(unit, pdu)) == Err::<Seq<u8>, ModbusError>(
            ModbusError::Exception(pdu[1]),
        ),
{
    let body = seq![unit] + pdu;
    let crc = crc16(body);
    let frame = rtu_frame(unit, pdu);
    let n = frame.len();
    assert(frame.take(n - 2) =~= body);
    let lo = (crc % 256) as u8;
    let hi = (crc / 256) as u8;
    assert(frame[n - 2] == lo);
    assert(frame[n - 1] == hi);
    assert((lo as int + hi as int * 256) as u16 == crc);
    assert(body.skip(1) =~= pdu);
}

/// What an RTU response check accepts is a PDU of at least two bytes whose function
/// byte does not have the exception bit set.
pub proof fn law_rtu_accepted_pdu(unit: u8, data: Seq<u8>)
    ensures
        rtu_response(unit, data) matches Ok(p) ==> p.len() >= 2 && p[0] & 0x80 == 0,
{
    match rtu_response(unit, data) {
        Ok(p) => {
            let b = p[0];
            assert(b & 0x80 != 0x80 ==> b & 0x80 == 0) by (bit_vector);
        },
        Err(_) => {},
    }
}

} // verus!
