use pnpro::pharma::JsonId;
use pnpro::report::{
    export_csv, report_frame, report_kind, sda_table, session_to_load, ReportError, ReportKind, ReportSection, SdaError,
};

#[test]
fn report_kinds() {
    assert_eq!(report_kind("audit"), Ok(ReportKind::Audit));
    assert_eq!(report_kind("sampling"), Ok(ReportKind::Sampling));
    assert_eq!(report_kind("trend"), Ok(ReportKind::Sensors));
    assert_eq!(report_kind("data"), Ok(ReportKind::Sensors));
    assert_eq!(report_kind("Audit"), Err(ReportError::UnsupportedKind));
    assert_eq!(ReportError::UnsupportedKind.message(), "不支持的报告类型");
    assert_eq!(ReportKind::Sensors.columns(), vec!["sensorId", "customId", "category", "lastValue"]);
    assert_eq!(ReportKind::Audit.columns().len(), 6);
    assert_eq!(ReportKind::Sampling.summary_key(), "totalSamplings");
}

#[test]
fn report_frame_texts() {
    let f = report_frame("audit", "daily", "2024-01-01", "2024-01-31", &Some("1h".to_string()), None);
    assert_eq!(f.title, "AUDIT Report");
    assert_eq!(f.facility, "Pharmaceutical Net Pro");
    assert_eq!(f.date_range, "2024-01-01 ~ 2024-01-31");
    assert_eq!(f.filters_summary, "mode=daily, interval=Some(\"1h\")");
    assert_eq!(f.signed_info, "Generated by system");
    assert_eq!(f.generated_by, "system");
    let g = report_frame("trend", "m", "a", "b", &None, Some("qa".to_string()));
    assert_eq!(g.filters_summary, "mode=m, interval=None");
    assert_eq!(g.signed_info, "Generated by qa");
    assert_eq!(g.page_note, "Generated by Pharmaceutical Net Pro");
}

fn field(k: &str, v: Option<&str>) -> (String, Option<String>) {
    (k.to_string(), v.map(|s| s.to_string()))
}

#[test]
fn csv_export() {
    let sections = vec![
        ReportSection {
            columns: Some(vec![Some("id".into()), Some("name".into()), None]),
            rows: Some(vec![
                vec![field("name", Some("A")), field("id", Some("1"))],
                vec![field("id", Some("2")), field("name", None)],
            ]),
        },
        ReportSection { columns: None, rows: Some(vec![vec![field("x", Some("y"))]]) },
        ReportSection { columns: Some(vec![Some("v".into())]), rows: None },
    ];
    assert_eq!(export_csv(&sections), "id,name,\n1,A,\n2,,\nv\n");
    assert_eq!(export_csv(&vec![]), "");
}

#[test]
fn csv_table_for_analysis() {
    let t = sda_table("\n timestamp , value \n\n2024-01-01,1.5\r\n2024-01-02\n   \n").unwrap();
    assert_eq!(t.header, vec!["timestamp", "value"]);
    assert_eq!(t.rows, vec![vec!["2024-01-01".to_string(), "1.5".to_string()], vec!["2024-01-02".to_string(), String::new()]]);
    assert!(matches!(sda_table(" \n\t"), Err(SdaError::MissingContent)));
    let only_header = sda_table("a,b,c").unwrap();
    assert_eq!(only_header.header.len(), 3);
    assert!(only_header.rows.is_empty());
    let extra = sda_table("a\n1,2,3").unwrap();
    assert_eq!(extra.rows, vec![vec!["1".to_string()]]);
    assert_eq!(SdaError::SessionNotFound.code(), 4040);
}

#[test]
fn stored_session_is_loaded_only_without_content() {
    assert_eq!(session_to_load("", &Some(JsonId::Int(3))), Some(3));
    assert_eq!(session_to_load("", &Some(JsonId::Text("4".into()))), Some(4));
    assert_eq!(session_to_load("a,b", &Some(JsonId::Int(3))), None);
    assert_eq!(session_to_load("", &None), None);
}
