use pnpro::audit::{business_already_audited, client_audit_fields, map_action, plan_http_audit, should_auto_audit};

fn mapped(method: &str, path: &str) -> (String, String, Option<String>) {
    map_action(method, path)
}

#[test]
fn actions_of_routes() {
    assert_eq!(mapped("POST", "/api/sensors"), ("sensor.create".into(), "sensors".into(), None));
    assert_eq!(mapped("DELETE", "/api/sensors/12"), ("sensor.delete".into(), "sensors".into(), Some("12".into())));
    assert_eq!(mapped("DELETE", "/api/sensors/abc/x"), ("sensor.delete".into(), "sensors".into(), Some("abc".into())));
    assert_eq!(mapped("PUT", "/api/samplings/custom-fields"), ("sampling.customFields.save".into(), "samplings".into(), None));
    assert_eq!(mapped("PUT", "/api/samplings/4"), ("sampling.update".into(), "samplings".into(), Some("4".into())));
    assert_eq!(mapped("GET", "/api/reports/7/export"), ("report.export".into(), "reports".into(), Some("7".into())));
    assert_eq!(mapped("PUT", "/api/system/facility/3"), ("facility.update".into(), "system".into(), Some("3".into())));
    assert_eq!(mapped("POST", "/mock/login"), ("auth.login".into(), "login".into(), None));
}

#[test]
fn unmatched_routes_fall_back() {
    assert_eq!(mapped("PATCH", "/api/foo/5"), ("api.patch".into(), "foo".into(), Some("5".into())));
    assert_eq!(mapped("POST", "/other/x"), ("api.post".into(), "other".into(), None));
    assert_eq!(mapped("DELETE", "/api"), ("api.delete".into(), "api".into(), None));
}

#[test]
fn handlers_that_audit_themselves() {
    assert!(business_already_audited("PUT", "/api/password-policy"));
    assert!(business_already_audited("POST", "/api/alarms/3/ack"));
    assert!(!business_already_audited("GET", "/api/alarms/3/ack"));
    assert!(!business_already_audited("POST", "/api/sensors"));
}

#[test]
fn which_requests_are_audited() {
    assert!(should_auto_audit("POST", "/api/sensors"));
    assert!(should_auto_audit("DELETE", "/api/recipes/1"));
    assert!(should_auto_audit("GET", "/api/reports/1/export"));
    assert!(should_auto_audit("GET", "/api/x/download"));
    assert!(!should_auto_audit("GET", "/api/sensors"));
    assert!(!should_auto_audit("POST", "/api/user-events"));
    assert!(!should_auto_audit("POST", "/api/alarms/3/ack"));
    assert!(!should_auto_audit("POST", "/api/license/activate"));
    assert!(!should_auto_audit("POST", "/api/realtime/signals/x"));
    assert!(!should_auto_audit("OPTIONS", "/api/sensors"));
}

#[test]
fn middleware_records() {
    let r = plan_http_audit("POST", "/api/sensors", " bob ", "", true).unwrap();
    assert_eq!(r.action, "sensor.create");
    assert_eq!(r.performed_by, "bob");
    assert_eq!(r.role_code, "user");
    assert!(plan_http_audit("POST", "/api/sensors", "bob", "admin", false).is_none());
    assert!(plan_http_audit("POST", "/mock/login", "bob", "admin", true).is_none());
    assert!(plan_http_audit("GET", "/api/sensors", "bob", "admin", true).is_none());
    let anon = plan_http_audit("DELETE", "/api/recipes/9", "", " super ", true).unwrap();
    assert_eq!((anon.performed_by.as_str(), anon.role_code.as_str()), ("anonymous", "super"));
    assert_eq!(anon.target_id, Some("9".to_string()));
}

#[test]
fn client_reported_records() {
    assert!(client_audit_fields("  ", None, None, None, "", "").is_none());
    let f = client_audit_fields("page.open", None, None, None, "", "").unwrap();
    assert_eq!((f.target_type.as_str(), f.performed_by.as_str(), f.role_code.as_str()), ("client", "anonymous", "user"));
    let f = client_audit_fields("x", Some("report".into()), Some(String::new()), Some("admin".into()), "carol", "super").unwrap();
    assert_eq!((f.target_type.as_str(), f.performed_by.as_str(), f.role_code.as_str()), ("report", "carol", "admin"));
}
