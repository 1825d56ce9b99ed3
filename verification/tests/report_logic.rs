use backend::reports::{
    db_unavailable_response, delete_file_error, delete_outcome, delete_target, ensure_db_available,
    file_error, found_report, merged_update, new_report_file, next_payload, preview_response,
    read_error, report_metrics, report_path_from_db, report_response, server_for_report,
    summarize_reports, update_target, CreateReport, FileStep, MetricAggregate, Report, UpdateReport,
};
use backend::status::Server;
use backend::time::Timestamp;

fn at(secs: i64) -> Timestamp {
    Timestamp { secs, nanos: 0 }
}

fn report(file_path: Option<&str>) -> Report {
    Report {
        id: 7,
        server_id: 1,
        period_start: at(100),
        period_end: at(200),
        created_at: Some(at(150)),
        file_path: file_path.map(|s| s.to_string()),
    }
}

fn aggregate(name: &str, count: i64) -> MetricAggregate {
    MetricAggregate {
        metric_name: name.to_string(),
        avg_bits: 2.0f64.to_bits(),
        min_bits: 1.0f64.to_bits(),
        min_at: at(110),
        max_bits: 3.0f64.to_bits(),
        max_at: at(120),
        count,
    }
}

#[test]
fn database_guard() {
    assert!(ensure_db_available(true).is_none());
    let e = ensure_db_available(false).unwrap();
    assert_eq!(e.status, 503);
    assert_eq!(e.error, "Database is temporarily unavailable. Service is running in degraded mode.");
    assert_eq!(db_unavailable_response().status, 503);
}

#[test]
fn report_list_drops_file_path() {
    let list = summarize_reports(&vec![report(Some("a.json")), report(None)]);
    assert_eq!(list.len(), 2);
    assert_eq!((list[0].id, list[0].server_id, list[0].period_start, list[0].period_end, list[0].created_at), (7, 1, at(100), at(200), Some(at(150))));
}

#[test]
fn server_lookup_errors() {
    let s = Server { id: 1, host: "h".to_string(), port: "p".to_string(), is_active: true };
    assert_eq!(server_for_report(Ok(Some(s))).unwrap().host, "h");
    let e = server_for_report(Ok(None)).unwrap_err();
    assert_eq!((e.status, e.error.as_str()), (404, "Server not found"));
    let e = server_for_report(Err("boom".to_string())).unwrap_err();
    assert_eq!((e.status, e.error.as_str()), (500, "boom"));
}

#[test]
fn report_statistics_by_name() {
    let m = report_metrics(&vec![aggregate("cpu_usage", 3), aggregate("memory_used", 4), aggregate("cpu_usage", 5)]);
    assert_eq!(m.len(), 2);
    assert_eq!(m.get(&"cpu_usage".to_string()).unwrap().count, 5);
    assert_eq!(f64::from_bits(m.get(&"memory_used".to_string()).unwrap().avg_bits), 2.0);
}

#[test]
fn report_documents_and_answers() {
    let s = Server { id: 1, host: "h".to_string(), port: "9".to_string(), is_active: true };
    let payload = CreateReport { server_id: 1, period_start: at(10), period_end: Timestamp { secs: 20, nanos: 5 } };
    let f = new_report_file(&payload, &s, report_metrics(&vec![aggregate("cpu_usage", 1)]));
    assert_eq!((f.server.host.as_str(), f.server.port.as_str()), ("h", "9"));
    assert_eq!((f.period.start, f.period.end), (at(10), Timestamp { secs: 20, nanos: 5 }));
    let r = report_response(&report(None), f);
    assert_eq!((r.id, r.server_id, r.created_at), (7, 1, Some(at(150))));
    assert_eq!(r.metrics.len(), 1);
    let p = preview_response(&payload, &s, report_metrics(&vec![]));
    assert_eq!((p.server_id, p.period.start, p.metrics.len()), (1, at(10), 0));
}

#[test]
fn report_lookup_errors() {
    assert_eq!(found_report(Ok(Some(report(None))), 500).unwrap().id, 7);
    let e = found_report(Ok(None), 500).unwrap_err();
    assert_eq!((e.status, e.error.as_str()), (404, "Report not found"));
    let e = found_report(Err("db down".to_string()), 400).unwrap_err();
    assert_eq!((e.status, e.error.as_str()), (400, "db down"));
}

#[test]
fn report_path_from_row() {
    assert_eq!(report_path_from_db("reports", &report(Some(" a.json "))).unwrap(), "reports/a.json");
    assert_eq!(report_path_from_db("reports", &report(Some("/abs/a.json"))).unwrap(), "/abs/a.json");
    let e = report_path_from_db("reports", &report(Some("  "))).unwrap_err();
    assert_eq!((e.status, e.error.as_str()), (500, "Report file path is missing in database."));
    assert!(report_path_from_db("reports", &report(None)).is_err());
}

#[test]
fn delete_flow() {
    assert_eq!(delete_target("reports", &report(Some("a.json"))), Some("reports/a.json".to_string()));
    assert_eq!(delete_target("reports", &report(Some(" "))), None);
    assert_eq!(delete_target("reports", &report(None)), None);
    assert!(delete_file_error(true, "gone").is_none());
    let e = delete_file_error(false, "denied").unwrap();
    assert_eq!((e.status, e.error.as_str()), (500, "Failed to delete report file: denied"));
    assert_eq!(delete_outcome(Ok(true)).unwrap(), 204);
    let e = delete_outcome(Ok(false)).unwrap_err();
    assert_eq!((e.status, e.error.as_str()), (404, "Report not found"));
    let e = delete_outcome(Err("x".to_string())).unwrap_err();
    assert_eq!((e.status, e.error.as_str()), (500, "x"));
}

#[test]
fn file_errors_carry_details() {
    let e = read_error(true, "missing");
    assert_eq!((e.status, e.error.as_str()), (404, "Report file not found."));
    let e = read_error(false, "denied");
    assert_eq!((e.status, e.error.as_str()), (500, "Failed to read report file: denied"));
    assert_eq!(file_error(FileStep::Parse, "eof").error, "Failed to parse report file: eof");
    assert_eq!(file_error(FileStep::CreateDirectory, "ro").error, "Failed to create reports directory: ro");
    assert_eq!(file_error(FileStep::Serialize, "s").error, "Failed to serialize report: s");
    assert_eq!(file_error(FileStep::Write, "w").error, "Failed to write report file: w");
}

#[test]
fn update_merges_fields() {
    let current = report(Some("old.json"));
    let none = UpdateReport { server_id: None, period_start: None, period_end: None, file_path: None };
    let p = next_payload(&none, &current);
    assert_eq!((p.server_id, p.period_start, p.period_end), (1, at(100), at(200)));
    assert_eq!(merged_update(&current, &none), (1, at(100), at(200), "old.json".to_string()));
    assert_eq!(merged_update(&report(None), &none), (1, at(100), at(200), String::new()));
    let all = UpdateReport { server_id: Some(2), period_start: Some(at(5)), period_end: None, file_path: Some("new.json".to_string()) };
    let p = next_payload(&all, &current);
    assert_eq!((p.server_id, p.period_start, p.period_end), (2, at(5), at(200)));
    assert_eq!(merged_update(&current, &all), (2, at(5), at(200), "new.json".to_string()));
    let t = update_target(&current, &all);
    assert_eq!((t.id, t.server_id, t.file_path.as_deref()), (7, 1, Some("new.json")));
    let t = update_target(&current, &none);
    assert_eq!(t.file_path.as_deref(), Some("old.json"));
}
