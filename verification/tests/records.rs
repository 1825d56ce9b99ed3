use backend::collections::{IdMap, NamedMap};
use backend::metrics::{
    latest_from_result, metric_ids_by_name, metrics_body, persist_decision, resolve_metric_ids,
    GetMetricsResult, MetricName, Metrics, PersistDecision, ProcessPayload, ServerRuntimePayload,
};
use backend::realtime::{
    find_server, group_by_server, realtime_overview, server_metrics_group, server_realtime,
    source_connected, ServerMetricValue,
};
use backend::status::{initial_statuses, record_status, service_status, Server, StatusBoard};
use backend::time::Timestamp;

fn at(secs: i64) -> Timestamp {
    Timestamp { secs, nanos: 0 }
}

fn server(id: i64, host: &str, port: &str) -> Server {
    Server { id, host: host.to_string(), port: port.to_string(), is_active: true }
}

fn value(server_id: i64, name: &str, bits: u64, time: i64) -> ServerMetricValue {
    ServerMetricValue { server_id, metric_id: 1, metric_name: name.to_string(), value_bits: bits, time: at(time) }
}

fn sample_result() -> GetMetricsResult {
    GetMetricsResult {
        recorded_at: Timestamp { secs: 1_700_000_000, nanos: 123_456_789 },
        cpu_usage_percent_bits: 12.5f64.to_bits(),
        memory_used_bytes: 1024,
        memory_available_bytes: 2048,
        server_runtime: ServerRuntimePayload {
            active_users: 3,
            active_calls: 2,
            active_meetings: 1,
            pending_calls: 4,
            pending_meeting_requests: 5,
            uptime_sec: 60,
        },
        processes: vec![ProcessPayload {
            pid: 42,
            name: "media".to_string(),
            cpu_usage_percent_bits: 1.5f64.to_bits(),
            memory_rss_bytes: 100,
            threads: 8,
            fd_count: 16,
            uptime_sec: 30,
        }],
    }
}

#[test]
fn id_map_insert_get_take() {
    let mut m: IdMap<u32> = IdMap::new();
    m.insert(5, 1);
    m.insert(3, 2);
    m.insert(5, 7);
    assert_eq!(m.len(), 2);
    assert_eq!(m.get(5), Some(&7));
    assert_eq!(m.get(4), None);
    assert_eq!(m.take(5), Some(7));
    assert_eq!(m.get(5), None);
    assert_eq!(m.take(5), None);
}

#[test]
fn named_map_later_value_wins() {
    let mut m: NamedMap<u64> = NamedMap::new();
    m.insert("cpu".to_string(), 1);
    m.insert("mem".to_string(), 2);
    m.insert("cpu".to_string(), 3);
    assert_eq!(m.len(), 2);
    assert_eq!(m.get(&"cpu".to_string()), Some(&3));
    assert_eq!(m.take(&"mem".to_string()), Some(2));
    assert_eq!(m.get(&"mem".to_string()), None);
}

#[test]
fn runtime_payload_defaults_to_zero() {
    let d = ServerRuntimePayload::default();
    assert_eq!(d, ServerRuntimePayload {
        active_users: 0,
        active_calls: 0,
        active_meetings: 0,
        pending_calls: 0,
        pending_meeting_requests: 0,
        uptime_sec: 0,
    });
}

#[test]
fn metrics_from_result_copies_fields() {
    let m = Metrics::from(sample_result());
    assert_eq!(m.recorded_at, Timestamp { secs: 1_700_000_000, nanos: 123_456_789 });
    assert_eq!(f64::from_bits(m.cpu_usage_percent_bits), 12.5);
    assert_eq!((m.memory_used_bytes, m.memory_available_bytes), (1024, 2048));
    assert_eq!((m.active_users, m.active_calls, m.active_meetings), (3, 2, 1));
    assert_eq!((m.pending_calls, m.pending_meeting_requests, m.uptime_sec), (4, 5, 60));
}

#[test]
fn latest_snapshot_of_result() {
    let l = latest_from_result(&sample_result());
    assert_eq!(l.recorded_at, Timestamp { secs: 1_700_000_000, nanos: 123_456_789 });
    assert_eq!(l.server_runtime.active_users, 3);
    assert_eq!(l.server_runtime.uptime_sec, 60);
    assert_eq!(l.processes.len(), 1);
    assert_eq!(l.processes[0].name, "media");
    assert_eq!(l.processes[0].pid, 42);
    assert_eq!(f64::from_bits(l.processes[0].cpu_usage_bits), 1.5);
}

#[test]
fn metric_ids_and_resolution() {
    let rows = vec![
        (1i16, "cpu_usage".to_string()),
        (2, "memory_used".to_string()),
        (3, "memory_available".to_string()),
        (4, "active_users".to_string()),
        (9, "cpu_usage".to_string()),
    ];
    let ids = metric_ids_by_name(&rows);
    assert_eq!(ids.len(), 4);
    let set = resolve_metric_ids(&ids).unwrap();
    assert_eq!((set.cpu_usage, set.memory_used, set.memory_available, set.active_users), (9, 2, 3, 4));
    let partial = metric_ids_by_name(&vec![(1i16, "cpu_usage".to_string()), (4, "active_users".to_string())]);
    assert_eq!(resolve_metric_ids(&partial), Err(MetricName::MemoryUsed));
    assert_eq!(MetricName::MemoryUsed.name(), "memory_used");
}

#[test]
fn persist_decisions() {
    let empty: NamedMap<i16> = NamedMap::new();
    let ids = metric_ids_by_name(&vec![(1i16, "cpu_usage".to_string())]);
    assert_eq!(persist_decision(false, &ids), PersistDecision::SkipDatabaseUnavailable);
    assert_eq!(persist_decision(true, &empty), PersistDecision::SkipIdsNotLoaded);
    assert_eq!(persist_decision(true, &ids), PersistDecision::Persist);
}

#[test]
fn metrics_body_requires_utf8() {
    assert_eq!(metrics_body(b"{\"x\":1}".to_vec()).unwrap(), "{\"x\":1}");
    let bad = metrics_body(vec![0xff; 100]).unwrap_err();
    assert_eq!(bad.len, 100);
    assert_eq!(bad.preview, vec![0xff; 64]);
    let short = metrics_body(vec![0xc3]).unwrap_err();
    assert_eq!((short.len, short.preview), (1, vec![0xc3]));
}

#[test]
fn statuses_start_not_connected() {
    let board = initial_statuses(&vec![server(2, "b", "81"), server(1, "a", "80")], at(10));
    assert_eq!(board.len(), 2);
    let s = board.get(1).unwrap();
    assert!(!s.connected);
    assert_eq!(s.last_change, at(10));
    assert_eq!(s.last_error.as_deref(), Some("not connected yet"));
    assert_eq!(s.host, "a");
}

#[test]
fn record_status_moves_last_change_on_flip_only() {
    let mut board = initial_statuses(&vec![server(1, "a", "80")], at(10));
    record_status(&mut board, 1, "a".to_string(), "80".to_string(), false, Some("refused".to_string()), at(20));
    let s = board.get(1).unwrap();
    assert_eq!((s.connected, s.last_change), (false, at(10)));
    assert_eq!(s.last_error.as_deref(), Some("refused"));
    record_status(&mut board, 1, "x".to_string(), "y".to_string(), true, None, at(30));
    let s = board.get(1).unwrap();
    assert_eq!((s.connected, s.last_change), (true, at(30)));
    assert_eq!(s.last_error, None);
    assert_eq!(s.host, "a");
    record_status(&mut board, 7, "h".to_string(), "p".to_string(), true, None, at(40));
    let s = board.get(7).unwrap();
    assert_eq!((s.server_id, s.connected, s.last_change), (7, true, at(40)));
    assert_eq!((s.host.as_str(), s.port.as_str()), ("h", "p"));
}

#[test]
fn service_status_sorts_and_counts() {
    let mut board = initial_statuses(&vec![server(3, "c", "1"), server(1, "a", "1"), server(2, "b", "1")], at(0));
    let r = service_status(true, &board);
    assert_eq!(r.status, "degraded");
    assert_eq!((r.sources_total, r.sources_connected), (3, 0));
    let ids: Vec<i64> = r.sources.iter().map(|s| s.server_id).collect();
    assert_eq!(ids, vec![1, 2, 3]);
    for id in 1..=3 {
        record_status(&mut board, id, String::new(), String::new(), true, None, at(5));
    }
    let r = service_status(true, &board);
    assert_eq!(r.status, "healthy");
    assert_eq!((r.sources_total, r.sources_connected), (3, 3));
    let r = service_status(false, &board);
    assert_eq!(r.status, "degraded");
    assert!(!r.db_connected);
    let empty: StatusBoard = IdMap::new();
    assert_eq!(service_status(true, &empty).status, "degraded");
}

#[test]
fn grouping_keeps_latest_values_and_time() {
    let rows = vec![
        value(1, "cpu_usage", 10, 100),
        value(1, "memory_used", 20, 300),
        value(2, "cpu_usage", 30, 200),
        value(1, "cpu_usage", 11, 50),
    ];
    let mut groups = group_by_server(&rows);
    let (m1, t1) = groups.take(1).unwrap();
    assert_eq!(m1.get(&"cpu_usage".to_string()), Some(&11));
    assert_eq!(m1.get(&"memory_used".to_string()), Some(&20));
    assert_eq!(t1, at(300));
    let (_, t2) = groups.take(2).unwrap();
    assert_eq!(t2, at(200));
    let early = group_by_server(&vec![value(5, "cpu_usage", 1, -10)]);
    assert_eq!(early.get(5).unwrap().1, at(0));
}

#[test]
fn realtime_overview_up_and_down() {
    let servers = vec![server(1, "a", "80"), server(2, "b", "81"), server(3, "c", "82")];
    let rows = vec![value(1, "cpu_usage", 10, 100), value(2, "cpu_usage", 20, 200)];
    let mut board = initial_statuses(&servers, at(0));
    record_status(&mut board, 1, String::new(), String::new(), true, None, at(7));
    record_status(&mut board, 3, String::new(), String::new(), true, None, at(8));
    let mut latest = IdMap::new();
    latest.insert(1, latest_from_result(&sample_result()));
    let r = realtime_overview(&servers, &rows, &board, &latest, at(999));
    assert_eq!(r.servers.len(), 3);
    let a = &r.servers[0];
    assert_eq!(a.status, "up");
    assert_eq!(a.recorded_at, Some(Timestamp { secs: 1_700_000_000, nanos: 123_456_789 }));
    assert_eq!(a.metrics.as_ref().unwrap().get(&"cpu_usage".to_string()), Some(&10));
    assert_eq!(a.server_runtime.unwrap().active_users, 3);
    assert_eq!(a.processes.as_ref().unwrap().len(), 1);
    assert_eq!(a.last_change, Some(at(7)));
    let b = &r.servers[1];
    assert_eq!(b.status, "down");
    assert_eq!(b.last_error.as_deref(), Some("not connected yet"));
    assert!(b.metrics.is_none() && b.recorded_at.is_none());
    let c = &r.servers[2];
    assert_eq!(c.status, "up");
    assert_eq!(c.recorded_at, Some(at(999)));
    assert_eq!(c.metrics.as_ref().unwrap().len(), 0);
    assert!(c.server_runtime.is_none());
}

#[test]
fn unknown_source_is_down() {
    let s = server(4, "d", "83");
    assert!(!source_connected(None));
    let r = server_realtime(&s, None, None, None, at(1));
    assert_eq!(r.status, "down");
    assert_eq!(r.last_change, None);
    assert_eq!(r.last_error.as_deref(), Some("source status unknown"));
}

#[test]
fn single_server_group_uses_first_row_time() {
    let rows = vec![value(1, "cpu_usage", 10, 500), value(1, "memory_used", 20, 400)];
    let (m, t) = server_metrics_group(&rows, at(7));
    assert_eq!(t, at(500));
    assert_eq!(m.len(), 2);
    let (m, t) = server_metrics_group(&vec![], at(7));
    assert_eq!((m.len(), t), (0, at(7)));
}

#[test]
fn find_server_by_id() {
    let servers = vec![server(1, "a", "80"), server(2, "b", "81")];
    assert_eq!(find_server(servers.clone(), 2).unwrap().host, "b");
    let e = find_server(servers, 9).unwrap_err();
    assert_eq!((e.status, e.error.as_str()), (404, "Server not found"));
}

#[test]
fn grouping_orders_times_by_seconds_then_nanoseconds() {
    let mut a = value(1, "cpu_usage", 1, 100);
    a.time = Timestamp { secs: 100, nanos: 900 };
    let mut b = value(1, "memory_used", 2, 100);
    b.time = Timestamp { secs: 100, nanos: 10 };
    let groups = group_by_server(&vec![a, b]);
    assert_eq!(groups.get(1).unwrap().1, Timestamp { secs: 100, nanos: 900 });
    assert!(Timestamp { secs: 1, nanos: 0 }.is_after(&Timestamp { secs: 0, nanos: 999_999_999 }));
    assert!(!Timestamp { secs: 0, nanos: 5 }.is_after(&Timestamp { secs: 0, nanos: 5 }));
    assert_eq!(Timestamp::unix_epoch(), at(0));
}
