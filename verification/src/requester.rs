//! The polling loop that asks one metrics agent for its metrics at a fixed
//! interval, reconnects when the session is lost, and reports the
//! connection status to its owner.
//!
//! The caller runs the timers and the I/O; each event goes through a method of
//! [`PollState`], which answers with what to do next.
use vstd::prelude::*;
use crate::packet::{Packet, GET_METRICS_CODE, GET_METRICS_RESULT_CODE};

verus! {

/// How a reconnect attempt ended.
#[derive(Debug, Clone, Copy, PartialEq, Eq, Structural)]
pub enum ReconnectResult {
    /// A session is established again.
    Reconnected,
    /// The requester was stopped while waiting to retry.
    Shutdown,
}

/// The class of a failed request, as far as the loop needs it.
#[derive(Debug, Clone, Copy, PartialEq, Eq, Structural)]
pub enum FailureKind {
    /// The peer reset the connection.
    ConnectionReset,
    /// The connection was aborted.
    ConnectionAborted,
    /// Writing to a closed connection.
    BrokenPipe,
    /// The connection ended in the middle of a packet.
    UnexpectedEof,
    /// Any other I/O error.
    OtherIo,
    /// A failure that is not an I/O error (a protocol or session error).
    NotIo,
}

/// The failures that mean the session is gone.
pub open spec fn connection_lost(kind: FailureKind) -> bool {
    match kind {
        FailureKind::ConnectionReset | FailureKind::ConnectionAborted | FailureKind::BrokenPipe
        | FailureKind::UnexpectedEof => true,
        _ => false,
    }
}

/// Whether a failure means the session is gone and must be rebuilt.
pub fn is_connection_error(kind: FailureKind) -> (b: bool)
    ensures
        b == connection_lost(kind),
{
    match kind {
        FailureKind::ConnectionReset | FailureKind::ConnectionAborted | FailureKind::BrokenPipe
        | FailureKind::UnexpectedEof => true,
        _ => false,
    }
}

/// A change of connection status to report: `error` is `None` when the
/// agent became reachable, and says why otherwise.
#[derive(Debug)]
pub struct StatusReport {
    pub connected: bool,
    pub error: Option<String>,
}

/// How one request to the agent ended.
#[derive(Debug)]
pub enum RequestOutcome {
    /// The agent answered with this metrics document.
    Data(Vec<u8>),
    /// No answer within the request timeout.
    Timeout,
    /// The request failed; the message describes the failure.
    Failed(FailureKind, String),
}

/// What to do on a timer tick.
#[derive(Debug)]
pub enum TickPlan {
    /// The session is down: report the given change, if any, then reconnect.
    Reconnect(Option<StatusReport>),
    /// The session is up: request the metrics.
    Request,
}

/// What to do with the outcome of a request.
#[derive(Debug)]
pub struct ResponsePlan {
    /// A status change to report first.
    pub report: Option<StatusReport>,
    /// Metrics to hand to the consumer.
    pub deliver: Option<Vec<u8>>,
    /// Whether to tear the session down.
    pub disconnect: bool,
}

/// A report is made exactly when the status differs from the last one
/// reported, and it becomes the last one reported.
pub open spec fn reports_change(before: bool, after: bool, report: Option<StatusReport>) -> bool {
    match report {
        Some(r) => r.connected != before && after == r.connected && (r.connected <==> r.error is None),
        None => after == before,
    }
}

/// Two reports with no report between them never announce the same status:
/// the owner hears of every change, and of nothing else.
pub proof fn lemma_reports_alternate(
    before1: bool,
    after1: bool,
    first: StatusReport,
    after2: bool,
    second: StatusReport,
)
    requires
        reports_change(before1, after1, Some(first)),
        reports_change(after1, after2, Some(second)),
    ensures
        first.connected != second.connected,
        second.connected == before1,
{
}

/// Over a stretch of steps that report nothing, the reported status stays
/// where it was.
proof fn lemma_quiet_steps_keep_status(
    states: Seq<bool>,
    reports: Seq<Option<StatusReport>>,
    lo: int,
    hi: int,
)
    requires
        states.len() == reports.len() + 1,
        forall|i: int|
            0 <= i < reports.len() ==> reports_change(states[i], states[i + 1], #[trigger] reports[i]),
        0 <= lo <= hi <= reports.len(),
        forall|k: int| lo <= k < hi ==> #[trigger] reports[k] is None,
    ensures
        states[lo] == states[hi],
    decreases hi - lo,
{
    if lo < hi {
        assert(reports[hi - 1] is None);
        assert(reports_change(states[hi - 1], states[hi], reports[hi - 1]));
        lemma_quiet_steps_keep_status(states, reports, lo, hi - 1);
    }
}

/// The reports of a whole run of the loop, from a fresh [`PollState`] through
/// any sequence of steps (each step reporting at most one change, as every
/// method of [`PollState`] guarantees): the first report says the agent is
/// reachable, each later one says the opposite of the one before, and a
/// report carries an error exactly when it says the agent is unreachable.
pub proof fn lemma_report_sequence(states: Seq<bool>, reports: Seq<Option<StatusReport>>)
    requires
        states.len() == reports.len() + 1,
        !states[0],
        forall|i: int|
            0 <= i < reports.len() ==> reports_change(states[i], states[i + 1], #[trigger] reports[i]),
    ensures
        forall|i: int|
            0 <= i < reports.len() && #[trigger] reports[i] is Some ==> (reports[i]->0.connected
                <==> reports[i]->0.error is None),
        forall|i: int|
            0 <= i < reports.len() && #[trigger] reports[i] is Some && (forall|k: int|
                0 <= k < i ==> reports[k] is None) ==> reports[i]->0.connected,
        forall|i: int, j: int|
            0 <= i < j < reports.len() && #[trigger] reports[i] is Some && #[trigger] reports[j] is Some
                && (forall|k: int| i < k < j ==> reports[k] is None) ==> reports[i]->0.connected
                != reports[j]->0.connected,
{
    assert forall|i: int|
        0 <= i < reports.len() && #[trigger] reports[i] is Some && (forall|k: int|
            0 <= k < i ==> reports[k] is None) implies reports[i]->0.connected by {
        lemma_quiet_steps_keep_status(states, reports, 0, i);
        assert(reports_change(states[i], states[i + 1], reports[i]));
    }
    assert forall|i: int, j: int|
        0 <= i < j < reports.len() && #[trigger] reports[i] is Some && #[trigger] reports[j] is Some
            && (forall|k: int| i < k < j ==> reports[k] is None) implies reports[i]->0.connected
        != reports[j]->0.connected by {
        assert(reports_change(states[i], states[i + 1], reports[i]));
        assert(reports_change(states[j], states[j + 1], reports[j]));
        lemma_quiet_steps_keep_status(states, reports, i + 1, j);
    }
    assert forall|i: int| 0 <= i < reports.len() && #[trigger] reports[i] is Some implies (
    reports[i]->0.connected <==> reports[i]->0.error is None) by {
        assert(reports_change(states[i], states[i + 1], reports[i]));
    }
}

/// The last report made up to step `i`, or `-1` when there is none.
proof fn last_report(reports: Seq<Option<StatusReport>>, i: int) -> (j: int)
    requires
        0 <= i < reports.len(),
    ensures
        -1 <= j <= i,
        j >= 0 ==> reports[j] is Some,
        forall|k: int| j < k <= i ==> #[trigger] reports[k] is None,
    decreases i,
{
    if reports[i] is Some {
        i
    } else if i == 0 {
        -1
    } else {
        last_report(reports, i - 1)
    }
}

/// Every delivery of metrics in a run of the loop (a step whose outcome hands
/// data on leaves the agent reported reachable, as [`PollState::on_response`]
/// guarantees) comes after a report that the agent is reachable, without error,
/// and no report at all is made between that one and the delivery.
pub proof fn lemma_delivery_follows_up_report(
    states: Seq<bool>,
    reports: Seq<Option<StatusReport>>,
    delivered: Seq<bool>,
    i: int,
)
    requires
        states.len() == reports.len() + 1,
        delivered.len() == reports.len(),
        !states[0],
        forall|k: int|
            0 <= k < reports.len() ==> reports_change(states[k], states[k + 1], #[trigger] reports[k]),
        forall|k: int| 0 <= k < delivered.len() && #[trigger] delivered[k] ==> states[k + 1],
        0 <= i < delivered.len(),
        delivered[i],
    ensures
        exists|j: int|
            0 <= j <= i && #[trigger] reports[j] is Some && reports[j]->0.connected
                && reports[j]->0.error is None && forall|k: int| j < k <= i ==> reports[k] is None,
{
    let j = last_report(reports, i);
    assert(states[i + 1]);
    if j < 0 {
        lemma_quiet_steps_keep_status(states, reports, 0, i + 1);
        assert(false);
    } else {
        assert(reports_change(states[j], states[j + 1], reports[j]));
        lemma_quiet_steps_keep_status(states, reports, j + 1, i + 1);
        assert(reports[j] is Some && reports[j]->0.connected && reports[j]->0.error is None);
    }
}

/// A report of a loss whose reason is `why`.
pub open spec fn is_loss_report(report: Option<StatusReport>, why: Seq<char>) -> bool {
    &&& report is Some
    &&& !report->0.connected
    &&& report->0.error is Some
    &&& report->0.error->0@ == why
}

/// A report that the agent became reachable.
pub open spec fn is_up_report(report: Option<StatusReport>) -> bool {
    &&& report is Some
    &&& report->0.connected
    &&& report->0.error is None
}

fn loss_report(why: &str) -> (r: Option<StatusReport>)
    ensures
        is_loss_report(r, why@),
        r matches Some(rep) && !rep.connected && rep.error is Some,
{
    Some(StatusReport { connected: false, error: Some(String::from_str(why)) })
}

fn up_report() -> (r: Option<StatusReport>)
    ensures
        is_up_report(r),
{
    Some(StatusReport { connected: true, error: None })
}

/// The state of one polling loop: the last connection status it reported, and
/// whether it still runs.
pub struct PollState {
    last_reported_connected: bool,
    running: bool,
}

impl PollState {
    /// The last status reported to the owner (nothing reported counts as down).
    pub closed spec fn reported_connected(&self) -> bool {
        self.last_reported_connected
    }

    /// The loop has not ended.
    pub closed spec fn running(&self) -> bool {
        self.running
    }

    /// A loop that has reported nothing yet.
    pub fn new() -> (s: PollState)
        ensures
            !s.reported_connected(),
            s.running(),
    {
        PollState { last_reported_connected: false, running: true }
    }

    /// Whether the loop still runs.
    pub fn is_running(&self) -> (b: bool)
        ensures
            b == self.running(),
    {
        self.running
    }

    /// A timer tick: request the metrics when the session is up; otherwise
    /// report the loss if the owner believes the agent reachable, and
    /// reconnect.
    pub fn on_tick(&mut self, client_connected: bool) -> (plan: TickPlan)
        ensures
            final(self).running() == old(self).running(),
            client_connected ==> plan is Request && final(self).reported_connected() == old(
                self,
            ).reported_connected(),
            !client_connected ==> (plan matches TickPlan::Reconnect(report) && reports_change(
                old(self).reported_connected(),
                final(self).reported_connected(),
                report,
            ) && !final(self).reported_connected() && (old(self).reported_connected()
                ==> is_loss_report(report, "disconnected"@))),
    {
        if client_connected {
            return TickPlan::Request;
        }
        let report = if self.last_reported_connected {
            self.last_reported_connected = false;
            loss_report("disconnected")
        } else {
            None
        };
        TickPlan::Reconnect(report)
    }

    /// A reconnect attempt ended: report the agent reachable again, or end the
    /// loop when it was stopped meanwhile.
    pub fn on_reconnect(&mut self, result: ReconnectResult) -> (report: Option<StatusReport>)
        ensures
            reports_change(old(self).reported_connected(), final(self).reported_connected(), report),
            result == ReconnectResult::Reconnected ==> final(self).running() == old(self).running()
                && final(self).reported_connected() && (!old(self).reported_connected()
                ==> is_up_report(report)),
            result == ReconnectResult::Shutdown ==> !final(self).running()
                && !final(self).reported_connected() && (old(self).reported_connected()
                ==> is_loss_report(report, "shutdown"@)),
    {
        match result {
            ReconnectResult::Reconnected => {
                if !self.last_reported_connected {
                    self.last_reported_connected = true;
                    up_report()
                } else {
                    None
                }
            },
            ReconnectResult::Shutdown => {
                self.running = false;
                if self.last_reported_connected {
                    self.last_reported_connected = false;
                    loss_report("shutdown")
                } else {
                    None
                }
            },
        }
    }

    /// A request ended: hand the metrics on (reporting the agent reachable if
    /// it was not), ignore a timeout, and on a failure that lost the session
    /// report the loss with the failure's message and tear the session down.
    pub fn on_response(&mut self, outcome: RequestOutcome) -> (plan: ResponsePlan)
        ensures
            final(self).running() == old(self).running(),
            reports_change(
                old(self).reported_connected(),
                final(self).reported_connected(),
                plan.report,
            ),
            plan.deliver is Some ==> final(self).reported_connected(),
            match outcome {
                RequestOutcome::Data(data) => plan.deliver == Some(data)
                    && final(self).reported_connected() && !plan.disconnect && (!old(
                    self,
                ).reported_connected() ==> is_up_report(plan.report)),
                RequestOutcome::Timeout => plan.deliver is None && plan.report is None
                    && !plan.disconnect,
                RequestOutcome::Failed(kind, message) => plan.deliver is None && plan.disconnect
                    == connection_lost(kind) && (connection_lost(kind)
                    ==> !final(self).reported_connected()) && (!connection_lost(kind)
                    ==> plan.report is None) && (connection_lost(kind) && old(
                    self,
                ).reported_connected() ==> is_loss_report(plan.report, message@)),
            },
    {
        match outcome {
            RequestOutcome::Data(data) => {
                let report = if !self.last_reported_connected {
                    self.last_reported_connected = true;
                    up_report()
                } else {
                    None
                };
                ResponsePlan { report, deliver: Some(data), disconnect: false }
            },
            RequestOutcome::Timeout => ResponsePlan { report: None, deliver: None, disconnect: false },
            RequestOutcome::Failed(kind, message) => {
                if is_connection_error(kind) {
                    let report = if self.last_reported_connected {
                        self.last_reported_connected = false;
                        Some(StatusReport { connected: false, error: Some(message) })
                    } else {
                        None
                    };
                    ResponsePlan { report, deliver: None, disconnect: true }
                } else {
                    ResponsePlan { report: None, deliver: None, disconnect: false }
                }
            },
        }
    }

    /// The requester was stopped: the loop ends, reporting the loss if the
    /// owner believes the agent reachable.
    pub fn on_shutdown(&mut self) -> (report: Option<StatusReport>)
        ensures
            !final(self).running(),
            !final(self).reported_connected(),
            reports_change(old(self).reported_connected(), final(self).reported_connected(), report),
            old(self).reported_connected() ==> is_loss_report(report, "shutdown"@),
    {
        self.running = false;
        if self.last_reported_connected {
            self.last_reported_connected = false;
            loss_report("shutdown")
        } else {
            None
        }
    }
}

/// Why `start` was refused.
#[derive(Debug, Clone, Copy, PartialEq, Eq, Structural)]
pub enum StartError {
    /// The requester's loop is already running.
    AlreadyRunning,
}

/// Whether a requester's polling loop runs.
pub struct RunFlag {
    running: bool,
}

impl RunFlag {
    /// The loop runs.
    pub closed spec fn running(&self) -> bool {
        self.running
    }

    /// A requester whose loop has not started.
    pub fn new() -> (f: RunFlag)
        ensures
            !f.running(),
    {
        RunFlag { running: false }
    }

    /// Whether the loop runs.
    pub fn is_running(&self) -> (b: bool)
        ensures
            b == self.running(),
    {
        self.running
    }

    /// `start`: refused while the loop runs; afterwards the loop runs either
    /// way, so a second `start` without a `stop` between is refused.
    pub fn start(&mut self) -> (r: Result<(), StartError>)
        ensures
            final(self).running(),
            r is Err <==> old(self).running(),
    {
        if self.running {
            Err(StartError::AlreadyRunning)
        } else {
            self.running = true;
            Ok(())
        }
    }

    /// `stop`, or the end of the loop: the loop no longer runs.
    pub fn stop(&mut self)
        ensures
            !final(self).running(),
    {
        self.running = false;
    }
}

/// The packet that asks the agent for its metrics: type `GetMetrics`, empty body.
pub fn metrics_request() -> (p: Packet)
    ensures
        p.packet_type == GET_METRICS_CODE,
        p.body@.len() == 0,
        p.body_size == 0,
        p.well_formed(),
{
    Packet::new(GET_METRICS_CODE, Vec::new())
}

/// Why a response to the metrics request was refused.
#[derive(Debug, Clone, Copy, PartialEq, Eq, Structural)]
pub enum ResponseError {
    /// The agent answered with another packet type than `GetMetricsResult`.
    UnexpectedPacketType { got: u32, expected: u32 },
}

/// The metrics document in the agent's answer; refused unless the answer is a
/// `GetMetricsResult` packet.
pub fn check_response(response: Packet) -> (r: Result<Vec<u8>, ResponseError>)
    ensures
        response.packet_type == GET_METRICS_RESULT_CODE ==> (r matches Ok(body) && body@
            == response.body@),
        response.packet_type != GET_METRICS_RESULT_CODE ==> r == Err::<Vec<u8>, ResponseError>(
            ResponseError::UnexpectedPacketType {
                got: response.packet_type,
                expected: GET_METRICS_RESULT_CODE,
            },
        ),
{
    if response.packet_type != GET_METRICS_RESULT_CODE {
        return Err(
            ResponseError::UnexpectedPacketType {
                got: response.packet_type,
                expected: GET_METRICS_RESULT_CODE,
            },
        );
    }
    Ok(response.body)
}

} // verus!
