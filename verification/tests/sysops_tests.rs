use pnpro::pharma::JsonId;
use pnpro::sysops::{
    audit_limit, backup_config_or_default, backup_file_name, backup_outcome, backup_target, check_facility_delete,
    check_facility_update, check_min_length, check_new_facility, check_parent_level, check_signature_request,
    check_system_command, check_user_event, facility_filter, facility_tree, flag_is_on, language_setting,
    level_label, listed_role, policy_or_default, restore_mode, role_code_or_default, role_functions, setup_mode,
    signing_role, trail_role, user_id_code, FacilityFilter, GroupFunction, PharmaRole, SysError,
};

#[test]
fn role_mappings() {
    assert_eq!(trail_role("super"), PharmaRole::Administrator);
    assert_eq!(trail_role("power_user"), PharmaRole::PowerUser);
    assert_eq!(trail_role("nobody"), PharmaRole::Nobody);
    assert_eq!(trail_role("guest"), PharmaRole::User);
    assert_eq!(listed_role(&None), PharmaRole::User);
    assert_eq!(listed_role(&Some("emergency".into())), PharmaRole::Emergency);
    assert_eq!(listed_role(&Some("nobody".into())), PharmaRole::User);
    assert_eq!(signing_role("admin", None), "Supervisor");
    assert_eq!(signing_role("emergency", None), "User");
    assert_eq!(signing_role("admin", Some("QA Lead".into())), "QA Lead");
    assert_eq!(role_code_or_default(None), "user");
    assert_eq!(PharmaRole::PowerUser.name(), "PowerUser");
}

#[test]
fn role_function_lists() {
    let admin = role_functions(PharmaRole::Administrator);
    assert_eq!(admin.len(), 27);
    assert_eq!(admin[0].name(), "RecipeView");
    assert_eq!(admin[26].name(), "RunTimeLogic");
    let names = |r| role_functions(r).iter().map(|f| f.name()).collect::<Vec<_>>();
    assert_eq!(names(PharmaRole::Nobody), vec!["RecipeView", "SamplingView", "SensorsView", "AlarmView", "LimitsView"]);
    assert_eq!(names(PharmaRole::User), vec!["RecipeView", "SamplingView", "SensorsView", "AlarmView", "SamplingReportView", "LimitsView"]);
    assert_eq!(role_functions(PharmaRole::Supervisor).len(), 19);
    assert_eq!(role_functions(PharmaRole::PowerUser).len(), 10);
    assert_eq!(role_functions(PharmaRole::Emergency).len(), 19);
    assert!(!role_functions(PharmaRole::Emergency).contains(&GroupFunction::LimitsView));
    for role in [PharmaRole::Nobody, PharmaRole::User, PharmaRole::PowerUser, PharmaRole::Supervisor, PharmaRole::Emergency] {
        for f in role_functions(role) {
            assert!(admin.contains(&f));
        }
    }
}

#[test]
fn password_policy_and_signatures() {
    let p = policy_or_default(None);
    assert_eq!((p.expire_days, p.min_length, p.remember_old_count, p.auto_logoff_seconds), (90, 6, 3, 1800));
    assert!(p.electronic_signature_enabled);
    assert!(!policy_or_default(Some((30, 8, 2, 600, 0))).electronic_signature_enabled);
    assert_eq!(check_min_length(4), Ok(()));
    assert_eq!(check_min_length(64), Ok(()));
    assert_eq!(check_min_length(3), Err(SysError::InvalidMinLength));
    assert_eq!(check_min_length(65), Err(SysError::InvalidMinLength));
    assert_eq!(check_signature_request("u", "p", "a", None), Ok(()));
    assert_eq!(check_signature_request("u", "", "a", Some(1)), Err(SysError::InvalidParams));
    assert_eq!(check_signature_request("u", "p", "a", Some(0)), Err(SysError::SignatureDisabled));
    assert_eq!(SysError::SignatureDisabled.message(), "电子签名未启用");
}

#[test]
fn audit_trail_and_users() {
    assert_eq!(audit_limit(None), 500);
    assert_eq!(audit_limit(Some(0)), 1);
    assert_eq!(audit_limit(Some(5000)), 2000);
    assert_eq!(audit_limit(Some(20)), 20);
    assert_eq!(check_user_event("  "), Err(SysError::EmptyEvent));
    assert_eq!(check_user_event("door opened"), Ok(()));
    assert_eq!(user_id_code(None, 12), "UID-12");
    assert_eq!(user_id_code(Some("E-1".into()), 12), "E-1");
    assert!(flag_is_on(Some(1)));
    assert!(!flag_is_on(Some(2)));
    assert!(!flag_is_on(None));
}

#[test]
fn backups_and_commands() {
    let c = backup_config_or_default(None);
    assert_eq!((c.enabled, c.daily_at.as_str(), c.target_path.as_str(), c.retain_days), (false, "02:00", "./backups", 30));
    assert!(backup_config_or_default(Some((1, "03:00".into(), "/b".into(), 7))).enabled);
    assert_eq!(backup_target(None), "./backups");
    assert_eq!(backup_file_name("20240101_120000"), "pharma_backup_20240101_120000.json");
    let ok = backup_outcome(None);
    assert!(ok.succeeded);
    assert_eq!((ok.status.as_str(), ok.message.as_str()), ("success", "备份完成"));
    let bad = backup_outcome(Some("disk full".into()));
    assert_eq!((bad.status.as_str(), bad.message.as_str()), ("failed", "写入失败: disk full"));
    assert_eq!(SysError::BackupFailed.code(), 5000);
    assert_eq!(restore_mode(" ", None), Err(SysError::MissingBackupPath));
    assert_eq!(restore_mode("/b/x.json", Some(true)), Ok("restoreFacilityPro"));
    assert_eq!(restore_mode("/b/x.json", None), Ok("restoreFromBackup"));
    assert_eq!(check_system_command("restart"), Ok(()));
    assert_eq!(check_system_command("format"), Err(SysError::UnsupportedCommand));
    assert_eq!(language_setting("en-US".into(), None), ("en-US".to_string(), "en-US".to_string()));
    assert_eq!(setup_mode(None), "newInstallation");
}

#[test]
fn facility_checks() {
    assert_eq!(level_label(1), "厂房/园区");
    assert_eq!(level_label(3), "房间");
    assert_eq!(level_label(9), "未知");
    assert_eq!(check_new_facility(4, "x", &None).err(), Some(SysError::InvalidLevel));
    assert_eq!(check_new_facility(1, " ", &None).err(), Some(SysError::EmptyName));
    assert_eq!(check_new_facility(1, "Site", &Some(JsonId::Int(1))).err(), Some(SysError::RootWithParent));
    assert_eq!(check_new_facility(2, "Area", &Some(JsonId::Text(String::new()))).err(), Some(SysError::MissingParent));
    let n = check_new_facility(2, " Area ", &Some(JsonId::Text("5".into()))).unwrap();
    assert_eq!((n.parent_id, n.level, n.name.as_str()), (Some(5), 2, "Area"));
    assert_eq!(check_parent_level(2, None), Err(SysError::ParentNotFound));
    assert_eq!(check_parent_level(3, Some(1)), Err(SysError::LevelMismatch));
    assert_eq!(check_parent_level(3, Some(2)), Ok(()));
    assert_eq!(check_parent_level(1, Some(127)), Err(SysError::LevelMismatch));
    assert_eq!(check_facility_update(" ", true), Err(SysError::EmptyName));
    assert_eq!(check_facility_update("R", false), Err(SysError::NodeNotFound));
    assert_eq!(check_facility_update(" R ", true), Ok("R".to_string()));
    assert_eq!(check_facility_delete(true, 1), Err(SysError::HasChildren));
    assert_eq!(check_facility_delete(false, 0), Err(SysError::NodeNotFound));
    assert_eq!(check_facility_delete(false, 1), Ok(()));
}

#[test]
fn facility_list_filters() {
    assert_eq!(facility_filter(&Some("4".into()), Some(2)), Ok(FacilityFilter::Level(2)));
    assert_eq!(facility_filter(&None, None), Ok(FacilityFilter::All));
    assert_eq!(facility_filter(&Some(String::new()), None), Ok(FacilityFilter::All));
    assert_eq!(facility_filter(&Some("0".into()), None), Ok(FacilityFilter::Roots));
    assert_eq!(facility_filter(&Some("NULL".into()), None), Ok(FacilityFilter::Roots));
    assert_eq!(facility_filter(&Some("7".into()), None), Ok(FacilityFilter::Children(7)));
    assert_eq!(facility_filter(&Some("x".into()), None), Err(SysError::InvalidParentId));
}

#[test]
fn facility_tree_nests_rooms() {
    let nodes = vec![(1, None), (2, Some(1)), (3, Some(2)), (4, Some(2)), (5, None)];
    let t = facility_tree(&nodes);
    assert_eq!(t.iter().map(|n| n.index).collect::<Vec<_>>(), vec![0, 4]);
    assert_eq!(t[0].children[0].children.iter().map(|n| n.index).collect::<Vec<_>>(), vec![2, 3]);
}
