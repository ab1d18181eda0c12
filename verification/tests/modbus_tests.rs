use pnpro::modbus::{
    decode_registers, check_write_response, device_code_of, looks_like_host, modbus_crc16,
    normalize_serial_port, parse_endpoint, parse_serial_endpoint, parse_unit_id, poll_enabled,
    poll_interval_secs, power_command, register_request, response_pdu, rtu_frame_length,
    rtu_input_count, rtu_poll_plan, rtu_request, rtu_response_pdu, tcp_poll_plan, tcp_reading,
    tcp_request, tcp_response_body_len, tx_counter, u32_from_regs, ModbusError, PollSkip,
    PollTarget, Poller, PowerAction, PowerCommandError, RuntimeState, PollAction, TcpPoll,
    TcpPollStage, RtuPoll, RtuPollStage,
};

fn target(plc_ip: Option<&str>, slave: Option<&str>, protocol: &str) -> PollTarget {
    PollTarget {
        sensor_id: 7,
        custom_id: "PC-01".to_string(),
        device_code: None,
        device_name: None,
        plc_ip: plc_ip.map(|s| s.to_string()),
        slave_address: slave.map(|s| s.to_string()),
        protocol: protocol.to_string(),
        update_interval_sec: 60,
        power_on: 1,
    }
}

#[test]
fn crc16_known_frames() {
    assert_eq!(modbus_crc16(&[0x01, 0x04, 0x00, 0x00, 0x00, 0x0A]), 0x0D70);
    assert_eq!(modbus_crc16(&[0x01, 0x03, 0x00, 0x00, 0x00, 0x01]), 0x0A84);
    assert_eq!(modbus_crc16(&[0x11, 0x03, 0x00, 0x6B, 0x00, 0x03]), 0x8776);
    assert_eq!(modbus_crc16(&[]), 0xFFFF);
}

#[test]
fn request_pdu_and_tcp_frame() {
    let pdu = register_request(0x03, 2, 1);
    assert_eq!(pdu, vec![0x03, 0x00, 0x02, 0x00, 0x01]);
    let frame = tcp_request(0x0102, 9, &pdu);
    assert_eq!(frame, vec![0x01, 0x02, 0x00, 0x00, 0x00, 0x06, 0x09, 0x03, 0x00, 0x02, 0x00, 0x01]);
}

#[test]
fn tcp_response_header_length() {
    assert_eq!(tcp_response_body_len(&[0, 1, 0, 0, 0, 5, 1]), Ok(4));
    assert_eq!(tcp_response_body_len(&[0, 1, 0, 0, 0, 1, 1]), Err(ModbusError::ResponseLength));
}

#[test]
fn exception_responses_are_errors() {
    assert_eq!(response_pdu(vec![0x83, 0x02]), Err(ModbusError::Exception(2)));
    assert_eq!(response_pdu(vec![0x83]), Err(ModbusError::Exception(0)));
    assert_eq!(response_pdu(vec![0x03, 0x02, 0x00, 0x05]), Ok(vec![0x03, 0x02, 0x00, 0x05]));
}

#[test]
fn register_decoding() {
    assert_eq!(decode_registers(3, &[3, 4, 0x12, 0x34, 0x00, 0x07]), Ok(vec![0x1234, 7]));
    assert_eq!(decode_registers(3, &[4, 2, 0, 1]), Err(ModbusError::InvalidResponse(3)));
    assert_eq!(decode_registers(4, &[4, 4, 0, 1]), Err(ModbusError::IncompleteResponse(4)));
    assert_eq!(decode_registers(4, &[4]), Err(ModbusError::InvalidResponse(4)));
}

#[test]
fn write_response_check() {
    assert_eq!(check_write_response(&[6, 0, 1, 0, 11]), Ok(()));
    assert_eq!(check_write_response(&[6, 0, 1]), Err(ModbusError::InvalidResponse(6)));
}

#[test]
fn rtu_frame_roundtrip() {
    let frame = rtu_request(1, &[0x04, 0x00, 0x00, 0x00, 0x0A]);
    assert_eq!(frame, vec![0x01, 0x04, 0x00, 0x00, 0x00, 0x0A, 0x70, 0x0D]);
    let resp_pdu = vec![0x04, 0x02, 0x00, 0x2A];
    let resp = rtu_request(1, &resp_pdu);
    assert_eq!(rtu_response_pdu(1, &resp), Ok(resp_pdu.clone()));
    assert_eq!(rtu_frame_length(&resp), Some(resp.len()));
}

#[test]
fn rtu_response_errors() {
    assert_eq!(rtu_response_pdu(1, &[1, 4, 0]), Err(ModbusError::RtuTooShort(3)));
    let resp = rtu_request(2, &[0x04, 0x02, 0x00, 0x2A]);
    assert_eq!(rtu_response_pdu(1, &resp), Err(ModbusError::RtuUnitMismatch(2)));
    let mut bad = rtu_request(1, &[0x04, 0x02, 0x00, 0x2A]);
    let n = bad.len();
    bad[n - 1] ^= 0xFF;
    assert!(matches!(rtu_response_pdu(1, &bad), Err(ModbusError::RtuCrc { .. })));
}

#[test]
fn host_detection() {
    assert!(looks_like_host("192.168.1.10"));
    assert!(looks_like_host("host:502"));
    assert!(looks_like_host("  12 "));
    assert!(!looks_like_host("PLC1"));
    assert!(!looks_like_host("plc2"));
    assert!(!looks_like_host("   "));
    assert!(!looks_like_host("device"));
}

#[test]
fn endpoint_parsing() {
    assert_eq!(parse_endpoint("192.168.1.10"), Some(("192.168.1.10".to_string(), 502)));
    assert_eq!(parse_endpoint(" 192.168.1.10:1502 "), Some(("192.168.1.10".to_string(), 1502)));
    assert_eq!(parse_endpoint("host:abc"), Some(("host:abc".to_string(), 502)));
    assert_eq!(parse_endpoint("PLC1"), None);
    assert_eq!(parse_endpoint(""), None);
}

#[test]
fn unit_id_parsing() {
    assert_eq!(parse_unit_id(&Some(" 5 ".to_string())), 5);
    assert_eq!(parse_unit_id(&Some("247".to_string())), 247);
    assert_eq!(parse_unit_id(&Some("0".to_string())), 1);
    assert_eq!(parse_unit_id(&Some("300".to_string())), 1);
    assert_eq!(parse_unit_id(&Some("x".to_string())), 1);
    assert_eq!(parse_unit_id(&None), 1);
}

#[test]
fn serial_endpoint_parsing() {
    assert_eq!(parse_serial_endpoint("COM3", None), Some(("COM3".to_string(), 19200)));
    assert_eq!(parse_serial_endpoint("COM3@9600", None), Some(("COM3".to_string(), 9600)));
    assert_eq!(parse_serial_endpoint("COM3@abc", None), Some(("COM3".to_string(), 19200)));
    assert_eq!(parse_serial_endpoint("COM4", Some("115200")), Some(("COM4".to_string(), 115200)));
    assert_eq!(parse_serial_endpoint("/dev/ttyUSB0", None), Some(("/dev/ttyUSB0".to_string(), 19200)));
    assert_eq!(parse_serial_endpoint("PLC1", None), None);
    assert_eq!(parse_serial_endpoint("foo", None), None);
    assert_eq!(parse_serial_endpoint("  ", None), None);
    assert_eq!(parse_serial_endpoint(" COM3 ", None), Some(("COM3".to_string(), 19200)));
    assert_eq!(parse_serial_endpoint("192.168.1.5", None), None);
}

#[test]
fn serial_endpoint_with_colon() {
    assert_eq!(parse_serial_endpoint("COM3:9600", None), Some(("COM3".to_string(), 9600)));
    assert_eq!(parse_serial_endpoint("com5:x", Some("4800")), Some(("com5".to_string(), 4800)));
    assert_eq!(parse_serial_endpoint("/dev/ttyUSB0:115200", None), Some(("/dev/ttyUSB0".to_string(), 115200)));
    assert_eq!(parse_serial_endpoint("192.168.1.5:502", None), None);
}

#[test]
fn serial_port_normalisation() {
    assert_eq!(normalize_serial_port("COM3"), r"\\.\COM3");
    assert_eq!(normalize_serial_port("com12"), r"\\.\com12");
    assert_eq!(normalize_serial_port(r"\\.\COM3"), r"\\.\COM3");
    assert_eq!(normalize_serial_port("/dev/ttyUSB0"), "/dev/ttyUSB0");
}

#[test]
fn registers_to_u32() {
    assert_eq!(u32_from_regs(1, 2), 65538);
    assert_eq!(u32_from_regs(0xFFFF, 0xFFFF), u32::MAX);
}

#[test]
fn settings_from_environment() {
    assert_eq!(rtu_input_count(None), 16);
    assert_eq!(rtu_input_count(Some("4")), 10);
    assert_eq!(rtu_input_count(Some("99")), 20);
    assert_eq!(rtu_input_count(Some("12")), 12);
    assert_eq!(rtu_input_count(Some("bad")), 16);
    assert!(poll_enabled(None));
    assert!(poll_enabled(Some("Y")));
    assert!(poll_enabled(Some("TRUE")));
    assert!(!poll_enabled(Some("N")));
    assert_eq!(poll_interval_secs(None), 5);
    assert_eq!(poll_interval_secs(Some("0")), 1);
    assert_eq!(poll_interval_secs(Some("30")), 30);
}

#[test]
fn device_code_falls_back_to_custom_id() {
    let mut t = target(None, None, "ModbusTCP");
    assert_eq!(device_code_of(&t), "PC-01");
    t.device_code = Some(String::new());
    assert_eq!(device_code_of(&t), "PC-01");
    t.device_code = Some("DEV-9".to_string());
    assert_eq!(device_code_of(&t), "DEV-9");
}

#[test]
fn protocol_selects_rtu() {
    assert!(target(None, None, "ModbusRTU").uses_rtu());
    assert!(target(None, None, "modbusrtu").uses_rtu());
    assert!(!target(None, None, "ModbusTCP").uses_rtu());
}

#[test]
fn tcp_reading_interprets_status() {
    let r = tcp_reading(&[0x1003], &[250], &[0, 100, 1, 0]);
    assert_eq!(r.status_word, 0x1003);
    assert!(r.running && r.sampling && r.flow_alarm);
    assert_eq!(r.runtime, RuntimeState::Sampling);
    assert_eq!(r.flow_raw, 250);
    assert_eq!(r.ch1, 100);
    assert_eq!(r.ch2, 65536);
    let idle = tcp_reading(&[], &[], &[5]);
    assert_eq!(idle.status_word, 0);
    assert_eq!(idle.ch1, 0);
    assert_eq!(idle.runtime, RuntimeState::Idle);
    assert_eq!(RuntimeState::Offline.name(), "Offline");
}

#[test]
fn power_actions() {
    assert_eq!(PowerAction::parse("on"), Some(PowerAction::On));
    assert_eq!(PowerAction::parse("cleaning"), Some(PowerAction::Cleaning));
    assert_eq!(PowerAction::parse("ON"), None);
    assert_eq!(PowerAction::Off.power_on(), 0);
    assert_eq!(PowerAction::Cleaning.power_on(), 1);
    assert_eq!(PowerAction::Cleaning.runtime_state(), RuntimeState::Cleaning);
    assert_eq!(PowerAction::On.command(), 11);
    assert_eq!(PowerAction::Cleaning.command(), 12);
}

#[test]
fn power_command_planning() {
    let ip = Some("10.0.0.5:1502".to_string());
    let slave = Some("3".to_string());
    let c = power_command(&ip, &slave, "ModbusTCP", "on").unwrap();
    assert_eq!((c.host.as_str(), c.port, c.unit, c.register, c.value), ("10.0.0.5", 1502, 3, 1, 11));
    assert_eq!(power_command(&ip, &slave, "ModbusRTU", "on").err(), Some(PowerCommandError::UnsupportedProtocol));
    assert_eq!(power_command(&None, &slave, "ModbusTCP", "on").err(), Some(PowerCommandError::NoAddress));
    assert_eq!(power_command(&Some("PLC1".to_string()), &slave, "ModbusTCP", "on").err(), Some(PowerCommandError::InvalidAddress));
    assert_eq!(power_command(&ip, &slave, "ModbusTCP", "reboot").err(), Some(PowerCommandError::InvalidAction));
}

#[test]
fn transaction_ids_count_up() {
    let mut c = tx_counter();
    assert_eq!(c.next_tid(), 1);
    assert_eq!(c.next_tid(), 2);
}

#[test]
fn poll_plans() {
    let p = tcp_poll_plan(&target(Some("192.168.0.9"), Some("4"), "ModbusTCP")).unwrap();
    assert_eq!((p.host.as_str(), p.port, p.unit), ("192.168.0.9", 502, 4));
    assert_eq!(tcp_poll_plan(&target(None, None, "ModbusTCP")).err(), Some(PollSkip::NoAddress));
    assert_eq!(tcp_poll_plan(&target(Some("PLC1"), None, "ModbusTCP")).err(), Some(PollSkip::InvalidAddress));
    let r = rtu_poll_plan(&target(Some("COM3@9600"), None, "ModbusRTU"), None, Some("12")).unwrap();
    assert_eq!((r.port.as_str(), r.baud, r.unit, r.count), ("COM3", 9600, 1, 12));
    let r = rtu_poll_plan(&target(Some("COM3:9600"), None, "ModbusRTU"), None, None).unwrap();
    assert_eq!((r.port.as_str(), r.baud), ("COM3", 9600));
    assert_eq!(rtu_poll_plan(&target(None, None, "ModbusRTU"), None, None).err(), Some(PollSkip::NoAddress));
    assert_eq!(rtu_poll_plan(&target(Some("bogus"), None, "ModbusRTU"), None, None).err(), Some(PollSkip::InvalidAddress));
    assert_eq!(PollSkip::NoAddress.message(false), "未配置 plcIp/设备 IP，跳过轮询");
}

#[test]
fn poller_cycles_only_when_enabled() {
    let mut p = Poller::new(true);
    assert_eq!(p.begin_cycle(), Some(1));
    assert_eq!(p.begin_cycle(), Some(2));
    p.enabled = false;
    assert_eq!(p.begin_cycle(), None);
    assert_eq!(p.cycle, 2);
}

#[test]
fn crc_of_message_with_its_crc_is_zero() {
    for data in [vec![], vec![1u8, 3, 0, 0, 0, 10], vec![0xFFu8; 7]] {
        let c = modbus_crc16(&data);
        let mut e = data.clone();
        e.push((c & 0xFF) as u8);
        e.push((c >> 8) as u8);
        assert_eq!(modbus_crc16(&e), 0);
    }
}

#[test]
fn tcp_poll_reads_status_flow_then_particles() {
    let (p, a) = TcpPoll::new();
    assert!(matches!(a, PollAction::Connect));
    let (p, a) = p.step(Some(vec![]));
    assert!(matches!(a, PollAction::ReadHolding { address: 2, count: 1 }));
    let (p, a) = p.step(Some(vec![0x0003]));
    assert!(matches!(a, PollAction::ReadHolding { address: 22, count: 1 }));
    let (p, a) = p.step(None);
    assert!(matches!(a, PollAction::ReadInput { address: 9, count: 4 }));
    let (p, a) = p.step(Some(vec![0, 5, 0, 7]));
    assert_eq!(p.stage, TcpPollStage::Finished);
    match a {
        PollAction::StoreTcp(r) => {
            assert_eq!((r.status_word, r.flow_raw, r.ch1, r.ch2), (3, 0, 5, 7));
            assert!(r.running && r.sampling);
            assert_eq!(r.runtime, RuntimeState::Sampling);
        }
        _ => panic!("expected a reading"),
    }
    let (_, a) = p.step(None);
    assert!(matches!(a, PollAction::Finished));
}

#[test]
fn tcp_poll_offline_only_on_connect_or_status_failure() {
    let (p, _) = TcpPoll::new();
    let (_, a) = p.step(None);
    assert!(matches!(a, PollAction::MarkOffline));
    let (p, _) = TcpPoll::new();
    let (p, _) = p.step(Some(vec![]));
    let (_, a) = p.step(None);
    assert!(matches!(a, PollAction::MarkOffline));
}

#[test]
fn rtu_poll_reads_inputs_or_goes_offline() {
    let (p, a) = RtuPoll::new(6);
    assert!(matches!(a, PollAction::Connect));
    let (p, a) = p.step(Some(vec![]));
    assert!(matches!(a, PollAction::ReadInput { address: 0, count: 6 }));
    let (p, a) = p.step(Some(vec![1, 2, 3]));
    assert_eq!(p.stage, RtuPollStage::Finished);
    match a {
        PollAction::StoreRtu(v) => assert_eq!(v, vec![1, 2, 3]),
        _ => panic!("expected registers"),
    }
    let (p, _) = RtuPoll::new(6);
    let (_, a) = p.step(None);
    assert!(matches!(a, PollAction::MarkOffline));
    let (p, _) = RtuPoll::new(6);
    let (p, _) = p.step(Some(vec![]));
    let (_, a) = p.step(None);
    assert!(matches!(a, PollAction::MarkOffline));
}
