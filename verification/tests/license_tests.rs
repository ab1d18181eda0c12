use pnpro::license::{
    activation_code, decode_license, encode_license, evaluate_license, parse_date, path_allowed_without_license,
    plan_activation, prepare_issue, sign_payload, ActivateBody, ActivationError, IssueBody, IssueError,
    LicenseClock, LicenseCodeError, LicensePayload, LicenseRecord,
};

const SECRET: &str = "field-secret";

fn record(from: &str, until: &str, lock: i64, mac: Option<&str>, observed: Option<i64>) -> LicenseRecord {
    LicenseRecord {
        id: 1,
        license_id: "LIC-1".to_string(),
        customer_name: "Acme".to_string(),
        valid_from: parse_date(from).unwrap(),
        valid_from_text: from.to_string(),
        valid_until: parse_date(until).unwrap(),
        valid_until_text: until.to_string(),
        device_lock: lock,
        bound_mac: mac.map(|m| m.to_string()),
        max_observed_at: observed,
    }
}

fn clock(day: &str, now: i64) -> LicenseClock {
    LicenseClock { now, today: parse_date(day).unwrap() }
}

#[test]
fn license_code_roundtrip() {
    let json = r#"{"v":1,"licenseId":"L-1","customer":"工厂","validFrom":"2024-01-01","validUntil":"2025-01-01","deviceLock":true}"#;
    let code = encode_license(json, SECRET);
    assert!(code.starts_with("PN1."));
    assert_eq!(code.split('.').count(), 3);
    assert_eq!(decode_license(&code, SECRET), Ok(json.to_string()));
    assert_eq!(decode_license(&format!("  {code}\n"), SECRET), Ok(json.to_string()));
}

#[test]
fn license_code_errors() {
    let code = encode_license("{}", SECRET);
    assert_eq!(decode_license(&code, "other"), Err(LicenseCodeError::Signature));
    assert_eq!(decode_license("PN2.abc.def", SECRET), Err(LicenseCodeError::Format));
    assert_eq!(decode_license("PN1.abc", SECRET), Err(LicenseCodeError::Format));
    let bad_payload = "!!!";
    let sig = sign_payload(bad_payload, SECRET);
    assert_eq!(decode_license(&format!("PN1.{bad_payload}.{sig}"), SECRET), Err(LicenseCodeError::Corrupt));
    assert_eq!(LicenseCodeError::Signature.message(), "授权码签名校验失败");
    let b64 = code.split('.').nth(1).unwrap().to_string();
    for other in ["", "0123", "not-a-signature"] {
        assert_eq!(decode_license(&format!("PN1.{b64}.{other}"), SECRET), Err(LicenseCodeError::Signature));
    }
}

#[test]
fn signature_is_md5_of_payload_and_secret() {
    assert_eq!(sign_payload("abc", "s"), pnpro::db::md5_hex("abc|s"));
    assert_eq!(sign_payload("abc", "s").len(), 32);
}

#[test]
fn dates_parse_to_day_numbers() {
    let a = parse_date("2024-02-28").unwrap();
    let b = parse_date(" 2024-03-01 ").unwrap();
    assert_eq!(b - a, 2);
    assert_eq!(parse_date("2024-13-01"), Err("日期格式应为 YYYY-MM-DD: 2024-13-01".to_string()));
    assert!(parse_date("tomorrow").is_err());
}

#[test]
fn issue_checks_key_and_dates() {
    let body = IssueBody {
        customer: " Acme ".to_string(),
        valid_from: "2024-01-01".to_string(),
        valid_until: "2024-12-31".to_string(),
        device_lock: None,
        master_key: "mk".to_string(),
    };
    let p = prepare_issue(&body, "mk", "LIC-9".to_string()).unwrap();
    assert_eq!((p.v, p.license_id.as_str(), p.customer.as_str(), p.device_lock), (1, "LIC-9", "Acme", true));
    assert_eq!(prepare_issue(&body, "other", "x".to_string()).err(), Some(IssueError::WrongMasterKey));
    let bad = IssueBody { valid_until: "soon".to_string(), ..body };
    assert_eq!(prepare_issue(&bad, "mk", "x".to_string()).err(), Some(IssueError::InvalidEnd));
}

#[test]
fn activation_checks_code_and_dates() {
    assert_eq!(activation_code(&ActivateBody { license_code: "  ".to_string() }), Err(ActivationError::EmptyCode));
    assert_eq!(activation_code(&ActivateBody { license_code: " PN1.a.b ".to_string() }), Ok("PN1.a.b".to_string()));
    let payload = LicensePayload {
        v: 1,
        license_id: "L".to_string(),
        customer: "C".to_string(),
        valid_from: "2024-01-01".to_string(),
        valid_until: "2024-06-30".to_string(),
        device_lock: true,
    };
    let plan = plan_activation(&payload, "aa:bb".to_string()).unwrap();
    assert_eq!(plan.device_lock, 1);
    assert_eq!(plan.bound_mac, Some("aa:bb".to_string()));
    let reversed = LicensePayload { valid_until: "2023-01-01".to_string(), ..payload };
    assert_eq!(plan_activation(&reversed, "aa:bb".to_string()).err(), Some(ActivationError::EndBeforeStart));
}

#[test]
fn evaluation_verdicts() {
    let mac = "aa:bb:cc:dd:ee:ff".to_string();
    let d = evaluate_license(true, mac.clone(), clock("2024-05-01", 0), None);
    assert!(d.status.valid);
    assert_eq!(d.status.reason_code, "bypass");
    assert_eq!(d.status.days_left, Some(9999));

    let d = evaluate_license(false, mac.clone(), clock("2024-05-01", 0), None);
    assert!(!d.status.valid);
    assert_eq!(d.status.reason_code, "missing");

    let rec = || record("2024-01-01", "2024-12-31", 1, None, Some(1_000_000));
    let d = evaluate_license(false, mac.clone(), clock("2024-05-01", 1_000_000 - 90_000), Some(rec()));
    assert_eq!(d.status.reason_code, "clock_rollback");
    assert!(!d.record_observed);

    let d = evaluate_license(false, mac.clone(), clock("2023-12-31", 2_000_000), Some(rec()));
    assert_eq!(d.status.reason_code, "not_started");
    assert_eq!(d.status.reason, "授权尚未生效（2024-01-01 起）");

    let d = evaluate_license(false, mac.clone(), clock("2025-01-01", 2_000_000), Some(rec()));
    assert_eq!(d.status.reason_code, "expired");
    assert_eq!(d.status.days_left, Some(0));

    let d = evaluate_license(false, mac.clone(), clock("2024-12-30", 2_000_000), Some(rec()));
    assert!(d.status.valid);
    assert_eq!(d.status.days_left, Some(1));
    assert!(d.record_observed && d.bind_current_mac);
    assert_eq!(d.status.bound_mac, Some(mac.clone()));

    let other = record("2024-01-01", "2024-12-31", 1, Some("11:22:33:44:55:66"), None);
    let d = evaluate_license(false, mac.clone(), clock("2024-05-01", 0), Some(other));
    assert_eq!(d.status.reason_code, "mac_mismatch");

    let same_upper = record("2024-01-01", "2024-12-31", 1, Some("AA:BB:CC:DD:EE:FF"), None);
    let d = evaluate_license(false, mac.clone(), clock("2024-05-01", 0), Some(same_upper));
    assert!(d.status.valid);
    assert!(!d.bind_current_mac);
}

#[test]
fn requests_allowed_without_license() {
    assert!(path_allowed_without_license("GET", "/api/license/status"));
    assert!(path_allowed_without_license("POST", "/mock/login"));
    assert!(path_allowed_without_license("POST", "/mock/updateToken"));
    assert!(path_allowed_without_license("GET", "/mock/getSmsCode"));
    assert!(!path_allowed_without_license("GET", "/mock/login"));
    assert!(!path_allowed_without_license("GET", "/api/sensors"));
}
