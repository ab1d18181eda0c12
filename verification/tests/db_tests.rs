use pnpro::db::{check_driver, md5_hex, split_statements, sqlite_url, DbConfig};

#[test]
fn md5_digests() {
    assert_eq!(md5_hex(""), "d41d8cd98f00b204e9800998ecf8427e");
    assert_eq!(md5_hex("admin"), "21232f297a57a5a743894a0e4a801fc3");
    assert_eq!(md5_hex("123456"), "e10adc3949ba59abbe56e057f20f883e");
}

#[test]
fn script_is_split_into_statements() {
    let sql = "-- schema\nCREATE TABLE a (id INT);\n\n  -- note\nINSERT INTO a VALUES (1);;\nINSERT INTO a\nVALUES (2);\nSELECT 1";
    assert_eq!(
        split_statements(sql),
        vec![
            "CREATE TABLE a (id INT)".to_string(),
            "INSERT INTO a VALUES (1)".to_string(),
            "INSERT INTO a\nVALUES (2)".to_string(),
            "SELECT 1".to_string(),
        ]
    );
    assert!(split_statements("-- only a comment\n;\n").is_empty());
    assert!(split_statements("").is_empty());
    assert_eq!(split_statements("A;\r\nB;\r\n"), vec!["A".to_string(), "B".to_string()]);
}

#[test]
fn configuration_defaults() {
    let c = DbConfig::from_env_values(None, None, None, None, None, None, None);
    assert_eq!(c.driver, "sqlite");
    assert_eq!(c.sqlite_path, "field-test.db");
    assert_eq!(c.host, "127.0.0.1");
    assert_eq!(c.port, 3306);
    assert_eq!(c.database, "soybean_admin");
    assert_eq!(c.user, "root");
    assert_eq!(c.password, "");
    let c = DbConfig::from_env_values(Some("mysql".into()), Some("/x.db".into()), None, Some("bad".into()), None, None, Some("pw".into()));
    assert_eq!((c.driver.as_str(), c.port, c.password.as_str()), ("mysql", 3306, "pw"));
    assert_eq!(c.sqlite_path, "/x.db");
    let c = DbConfig::from_env_values(None, None, None, Some("3307".into()), None, None, None);
    assert_eq!(c.port, 3307);
}

#[test]
fn relative_database_path_goes_to_data_dir() {
    let c = DbConfig::from_env_values(None, Some("field.db".into()), None, None, None, None, None);
    let c = c.resolve_for_runtime("/var/app");
    assert_eq!(c.sqlite_path, "/var/app/field.db");
    let c = DbConfig::from_env_values(None, Some("/abs/field.db".into()), None, None, None, None, None);
    let c = c.resolve_for_runtime("/var/app");
    assert_eq!(c.sqlite_path, "/abs/field.db");
}

#[test]
fn only_sqlite_is_enabled() {
    assert_eq!(check_driver("sqlite"), Ok(()));
    assert_eq!(check_driver("SQLite"), Ok(()));
    assert_eq!(check_driver("mysql"), Err("mysql".to_string()));
}

#[test]
fn sqlite_urls_use_forward_slashes() {
    assert_eq!(sqlite_url(r"C:\data\field.db"), "sqlite:C:/data/field.db?mode=rwc");
    assert_eq!(sqlite_url("/var/app/field.db"), "sqlite:/var/app/field.db?mode=rwc");
}

#[test]
fn statements_are_trimmed_and_not_empty() {
    let sql = "-- header\n  CREATE TABLE t (x);  \n;\n-- note\nINSERT INTO t VALUES (1);;\nSELECT 1";
    let st = split_statements(sql);
    assert_eq!(st, vec!["CREATE TABLE t (x)".to_string(), "INSERT INTO t VALUES (1)".to_string(), "SELECT 1".to_string()]);
    for s in &st {
        assert!(!s.is_empty() && s.trim() == s);
    }
}
