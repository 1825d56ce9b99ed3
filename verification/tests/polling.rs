use backend::health::{connected_after_write, supervisor_step};
use backend::packet::Packet;
use backend::requester::{
    check_response, is_connection_error, metrics_request, FailureKind, PollState, ReconnectResult,
    RequestOutcome, ResponseError, RunFlag, StartError, TickPlan,
};

#[test]
fn connection_errors_are_classified() {
    assert!(is_connection_error(FailureKind::ConnectionReset));
    assert!(is_connection_error(FailureKind::ConnectionAborted));
    assert!(is_connection_error(FailureKind::BrokenPipe));
    assert!(is_connection_error(FailureKind::UnexpectedEof));
    assert!(!is_connection_error(FailureKind::OtherIo));
    assert!(!is_connection_error(FailureKind::NotIo));
}

#[test]
fn first_data_reports_up_once() {
    let mut s = PollState::new();
    assert!(matches!(s.on_tick(true), TickPlan::Request));
    let plan = s.on_response(RequestOutcome::Data(b"{}".to_vec()));
    let report = plan.report.expect("first data reports the agent up");
    assert!(report.connected);
    assert!(report.error.is_none());
    assert_eq!(plan.deliver, Some(b"{}".to_vec()));
    assert!(!plan.disconnect);
    let plan = s.on_response(RequestOutcome::Data(vec![1]));
    assert!(plan.report.is_none());
    assert_eq!(plan.deliver, Some(vec![1]));
}

#[test]
fn lost_session_reports_once_and_reconnects() {
    let mut s = PollState::new();
    s.on_response(RequestOutcome::Data(vec![]));
    let plan = s.on_response(RequestOutcome::Failed(FailureKind::BrokenPipe, "broken pipe".to_string()));
    assert!(plan.disconnect);
    let report = plan.report.unwrap();
    assert!(!report.connected);
    assert_eq!(report.error.as_deref(), Some("broken pipe"));
    match s.on_tick(false) {
        TickPlan::Reconnect(r) => assert!(r.is_none()),
        TickPlan::Request => panic!("session is down"),
    }
    let r = s.on_reconnect(ReconnectResult::Reconnected).unwrap();
    assert!(r.connected);
    assert!(s.is_running());
}

#[test]
fn tick_without_session_reports_disconnected() {
    let mut s = PollState::new();
    s.on_reconnect(ReconnectResult::Reconnected);
    match s.on_tick(false) {
        TickPlan::Reconnect(Some(r)) => {
            assert!(!r.connected);
            assert_eq!(r.error.as_deref(), Some("disconnected"));
        }
        _ => panic!("expected a loss report"),
    }
}

#[test]
fn timeouts_and_other_failures_change_nothing() {
    let mut s = PollState::new();
    s.on_response(RequestOutcome::Data(vec![]));
    let plan = s.on_response(RequestOutcome::Timeout);
    assert!(plan.report.is_none() && plan.deliver.is_none() && !plan.disconnect);
    let plan = s.on_response(RequestOutcome::Failed(FailureKind::NotIo, "Unexpected packet type".to_string()));
    assert!(plan.report.is_none() && plan.deliver.is_none() && !plan.disconnect);
    let plan = s.on_response(RequestOutcome::Failed(FailureKind::OtherIo, "timed out".to_string()));
    assert!(plan.report.is_none() && !plan.disconnect);
}

#[test]
fn shutdown_reports_loss_and_stops() {
    let mut s = PollState::new();
    s.on_response(RequestOutcome::Data(vec![]));
    let r = s.on_shutdown().unwrap();
    assert!(!r.connected);
    assert_eq!(r.error.as_deref(), Some("shutdown"));
    assert!(!s.is_running());
    let mut t = PollState::new();
    assert!(t.on_shutdown().is_none());
    let mut u = PollState::new();
    assert!(u.on_reconnect(ReconnectResult::Shutdown).is_none());
    assert!(!u.is_running());
}

#[test]
fn start_is_refused_while_running() {
    let mut flag = RunFlag::new();
    assert!(!flag.is_running());
    assert_eq!(flag.start(), Ok(()));
    assert!(flag.is_running());
    assert_eq!(flag.start(), Err(StartError::AlreadyRunning));
    assert!(flag.is_running());
    flag.stop();
    assert!(!flag.is_running());
    assert_eq!(flag.start(), Ok(()));
}

#[test]
fn deliveries_follow_an_up_report() {
    let mut s = PollState::new();
    let mut reports = Vec::new();
    let mut delivered = Vec::new();
    for outcome in [
        RequestOutcome::Timeout,
        RequestOutcome::Data(vec![1]),
        RequestOutcome::Failed(FailureKind::UnexpectedEof, "eof".to_string()),
        RequestOutcome::Data(vec![2]),
        RequestOutcome::Data(vec![3]),
    ] {
        let plan = s.on_response(outcome);
        if let Some(r) = plan.report {
            reports.push(r.connected);
        }
        if let Some(d) = plan.deliver {
            assert_eq!(reports.last(), Some(&true));
            delivered.push(d);
        }
    }
    assert_eq!(reports, vec![true, false, true]);
    assert_eq!(delivered, vec![vec![1], vec![2], vec![3]]);
}

#[test]
fn metrics_request_and_response_check() {
    let req = metrics_request();
    assert_eq!((req.packet_type, req.body_size, req.body.len()), (4, 0, 0));
    let ok = check_response(Packet::new(41, b"{\"a\":1}".to_vec())).unwrap();
    assert_eq!(ok, b"{\"a\":1}".to_vec());
    assert_eq!(
        check_response(Packet::new(4, vec![])),
        Err(ResponseError::UnexpectedPacketType { got: 4, expected: 41 })
    );
}

#[test]
fn supervisor_follows_ping() {
    let s = supervisor_step(false, true, false);
    assert!(s.connected && s.log_restored && !s.log_lost && s.load_metric_ids);
    let s = supervisor_step(true, true, true);
    assert!(s.connected && !s.log_restored && !s.log_lost && !s.load_metric_ids);
    let s = supervisor_step(true, false, false);
    assert!(!s.connected && !s.log_restored && s.log_lost && !s.load_metric_ids);
    let s = supervisor_step(false, false, false);
    assert!(!s.connected && !s.log_lost);
    assert!(!connected_after_write(true, false));
    assert!(connected_after_write(true, true));
}
