use pnpro::syslog::{entry, error, info, info_detail, log_file_for, modbus_log, push, warn, LogStore};

#[test]
fn plain_entries_carry_their_level() {
    let e = info("t0".to_string(), "system", "boot", "started");
    assert_eq!((e.level.as_str(), e.source.as_str(), e.action.as_str(), e.message.as_str()), ("INFO", "system", "boot", "started"));
    assert!(e.sensor_id.is_none() && e.detail.is_none());
    assert_eq!(warn("t".into(), "s", "a", "m").level, "WARN");
    assert_eq!(error("t".into(), "s", "a", "m").level, "ERROR");
    let d = info_detail("t".into(), "db", "connect", "m", "{\"a\":1}".into());
    assert_eq!(d.detail, Some("{\"a\":1}".to_string()));
    let m = modbus_log("t".into(), "warn", "skip", "m", Some(3), Some("PC"), None, None, Some(12));
    assert_eq!((m.level.as_str(), m.source.as_str(), m.sensor_id, m.elapsed_ms), ("WARN", "modbus", Some(3), Some(12)));
    let u = entry("t".into(), "débug", "s", "a", "m", None, None, None, None, None);
    assert_eq!(u.level, "DÉBUG");
}

#[test]
fn log_files_by_source() {
    assert_eq!(log_file_for("modbus"), "modbus-poll.log");
    assert_eq!(log_file_for("db"), "app.log");
}

#[test]
fn buffer_keeps_the_newest_entries() {
    let mut store = LogStore::new(3);
    for i in 0..5 {
        push(&mut store, info(format!("t{i}"), "s", "a", "m"));
    }
    assert_eq!(store.len(), 3);
    let recent = store.recent(None, 200, None, None);
    assert_eq!(recent.iter().map(|e| e.time.as_str()).collect::<Vec<_>>(), vec!["t4", "t3", "t2"]);
}

#[test]
fn reading_filters_and_limits() {
    let mut store = LogStore::new(800);
    store.push(info("1".into(), "db", "a", "m"));
    store.push(warn("2".into(), "modbus", "a", "m"));
    store.push(error("3".into(), "db", "a", "m"));
    store.push(warn("4".into(), "db", "a", "m"));
    let warns = store.recent(None, 200, Some("warn"), None);
    assert_eq!(warns.iter().map(|e| e.time.as_str()).collect::<Vec<_>>(), vec!["4", "2"]);
    let db = store.recent(None, 200, None, Some("DB"));
    assert_eq!(db.iter().map(|e| e.time.as_str()).collect::<Vec<_>>(), vec!["4", "3", "1"]);
    let one = store.recent(Some(1), 200, None, None);
    assert_eq!(one.len(), 1);
    assert_eq!(one[0].time, "4");
    let zero = store.recent(Some(0), 200, None, None);
    assert_eq!(zero.len(), 1);
    let both = store.recent(Some(10), 200, Some("WARN"), Some("db"));
    assert_eq!(both.len(), 1);
}
