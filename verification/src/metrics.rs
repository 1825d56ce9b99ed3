//! Metrics documents received from the agents, and what the service keeps of
//! them: the row persisted to the database and the latest snapshot per server.
//!
//! Times are [`Timestamp`]s, to the nanosecond. Floating-point measurements
//! are carried as the bit patterns of their `f64` values (`f64::to_bits`).
use vstd::prelude::*;
use crate::collections::NamedMap;
use crate::time::Timestamp;
use vstd::utf8::{decode_utf8, valid_utf8};

verus! {

/// Calls `String::from_utf8`, which hands the bytes back when they are not
/// UTF-8: the text that valid UTF-8 bytes decode to, or the bytes themselves.
#[verifier::external_body]
fn string_from_utf8(data: Vec<u8>) -> (r: Result<String, Vec<u8>>)
    ensures
        match r {
            Ok(s) => valid_utf8(data@) && s@ == decode_utf8(data@),
            Err(b) => !valid_utf8(data@) && b@ == data@,
        },
{
    match String::from_utf8(data) {
        Ok(s) => Ok(s),
        Err(e) => Err(e.into_bytes()),
    }
}

/// A metrics body that is not UTF-8: its length and its first bytes (at most
/// 64), for the log.
#[derive(Debug)]
pub struct InvalidBody {
    pub len: usize,
    pub preview: Vec<u8>,
}

/// The text of a metrics body; refused, with its length and first 64 bytes,
/// when it is not UTF-8.
pub fn metrics_body(data: Vec<u8>) -> (r: Result<String, InvalidBody>)
    ensures
        r is Ok <==> valid_utf8(data@),
        r matches Ok(s) ==> s@ == decode_utf8(data@),
        r matches Err(e) ==> e.len == data@.len() && e.preview@ == data@.take(
            if data@.len() < 64 {
                data@.len() as int
            } else {
                64
            },
        ),
{
    match string_from_utf8(data) {
        Ok(s) => Ok(s),
        Err(bytes) => {
            let n = bytes.len();
            let k = if n < 64 {
                n
            } else {
                64
            };
            let mut preview: Vec<u8> = Vec::new();
            let mut i: usize = 0;
            while i < k
                invariant
                    k <= n,
                    n == bytes@.len(),
                    i <= k,
                    preview@ == bytes@.take(i as int),
                decreases k - i,
            {
                preview.push(bytes[i]);
                i = i + 1;
                assert(preview@ =~= bytes@.take(i as int));
            }
            Err(InvalidBody { len: n, preview })
        },
    }
}

/// Counters that the agent reports about the service it watches.
#[derive(Debug, Clone, Copy, PartialEq, Eq, Structural)]
pub struct ServerRuntimePayload {
    pub active_users: u64,
    pub active_calls: u64,
    pub active_meetings: u64,
    pub pending_calls: u64,
    pub pending_meeting_requests: u64,
    pub uptime_sec: u64,
}

impl ServerRuntimePayload {
    /// All counters at zero.
    pub open spec fn zero() -> ServerRuntimePayload {
        ServerRuntimePayload {
            active_users: 0,
            active_calls: 0,
            active_meetings: 0,
            pending_calls: 0,
            pending_meeting_requests: 0,
            uptime_sec: 0,
        }
    }
}

impl Default for ServerRuntimePayload {
    /// All counters at zero, as a document without runtime counters reads.
    fn default() -> (r: ServerRuntimePayload)
        ensures
            r == ServerRuntimePayload::zero(),
    {
        ServerRuntimePayload {
            active_users: 0,
            active_calls: 0,
            active_meetings: 0,
            pending_calls: 0,
            pending_meeting_requests: 0,
            uptime_sec: 0,
        }
    }
}

/// One process as the agent reports it.
#[derive(Debug, Clone)]
pub struct ProcessPayload {
    pub pid: u32,
    pub name: String,
    /// Bits of the CPU usage in percent.
    pub cpu_usage_percent_bits: u64,
    pub memory_rss_bytes: u64,
    pub threads: u32,
    pub fd_count: u32,
    pub uptime_sec: u64,
}

/// The agent's metrics document.
#[derive(Debug, Clone)]
pub struct GetMetricsResult {
    /// When the agent took the measurements.
    pub recorded_at: Timestamp,
    /// Bits of the CPU usage in percent.
    pub cpu_usage_percent_bits: u64,
    pub memory_used_bytes: u64,
    pub memory_available_bytes: u64,
    pub server_runtime: ServerRuntimePayload,
    pub processes: Vec<ProcessPayload>,
}

/// The measurements of one document, as they are persisted.
#[derive(Debug, Clone, Copy, PartialEq, Eq, Structural)]
pub struct Metrics {
    pub recorded_at: Timestamp,
    pub cpu_usage_percent_bits: u64,
    pub memory_used_bytes: u64,
    pub memory_available_bytes: u64,
    pub active_users: u64,
    pub active_calls: u64,
    pub active_meetings: u64,
    pub pending_calls: u64,
    pub pending_meeting_requests: u64,
    pub uptime_sec: u64,
}

/// The persisted measurements of a document: its own fields and its runtime
/// counters.
pub open spec fn metrics_of(m: GetMetricsResult) -> Metrics {
    Metrics {
        recorded_at: m.recorded_at,
        cpu_usage_percent_bits: m.cpu_usage_percent_bits,
        memory_used_bytes: m.memory_used_bytes,
        memory_available_bytes: m.memory_available_bytes,
        active_users: m.server_runtime.active_users,
        active_calls: m.server_runtime.active_calls,
        active_meetings: m.server_runtime.active_meetings,
        pending_calls: m.server_runtime.pending_calls,
        pending_meeting_requests: m.server_runtime.pending_meeting_requests,
        uptime_sec: m.server_runtime.uptime_sec,
    }
}

impl From<GetMetricsResult> for Metrics {
    /// The persisted measurements of a document.
    fn from(m: GetMetricsResult) -> (r: Metrics) {
        Metrics {
            recorded_at: m.recorded_at,
            cpu_usage_percent_bits: m.cpu_usage_percent_bits,
            memory_used_bytes: m.memory_used_bytes,
            memory_available_bytes: m.memory_available_bytes,
            active_users: m.server_runtime.active_users,
            active_calls: m.server_runtime.active_calls,
            active_meetings: m.server_runtime.active_meetings,
            pending_calls: m.server_runtime.pending_calls,
            pending_meeting_requests: m.server_runtime.pending_meeting_requests,
            uptime_sec: m.server_runtime.uptime_sec,
        }
    }
}

impl vstd::std_specs::convert::FromSpecImpl<GetMetricsResult> for Metrics {
    open spec fn obeys_from_spec() -> bool {
        true
    }

    open spec fn from_spec(m: GetMetricsResult) -> Metrics {
        metrics_of(m)
    }
}

/// Runtime counters as the REST API shows them.
#[derive(Debug, Clone, Copy, PartialEq, Eq, Structural)]
pub struct ServerRuntime {
    pub active_users: u64,
    pub active_calls: u64,
    pub active_meetings: u64,
    pub pending_calls: u64,
    pub pending_meeting_requests: u64,
    pub uptime_sec: u64,
}

/// A process as the REST API shows it.
#[derive(Debug, Clone)]
pub struct ProcessMetrics {
    pub pid: u32,
    pub name: String,
    /// Bits of the CPU usage in percent.
    pub cpu_usage_bits: u64,
    pub memory_rss: u64,
    pub threads: u32,
    pub fd_count: u32,
    pub uptime_sec: u64,
}

/// A process with its name as a character sequence.
pub struct ProcessMetricsView {
    pub pid: u32,
    pub name: Seq<char>,
    pub cpu_usage_bits: u64,
    pub memory_rss: u64,
    pub threads: u32,
    pub fd_count: u32,
    pub uptime_sec: u64,
}

impl View for ProcessMetrics {
    type V = ProcessMetricsView;

    open spec fn view(&self) -> ProcessMetricsView {
        ProcessMetricsView {
            pid: self.pid,
            name: self.name@,
            cpu_usage_bits: self.cpu_usage_bits,
            memory_rss: self.memory_rss,
            threads: self.threads,
            fd_count: self.fd_count,
            uptime_sec: self.uptime_sec,
        }
    }
}

/// The views of a list of processes.
pub open spec fn processes_view(v: Seq<ProcessMetrics>) -> Seq<ProcessMetricsView> {
    v.map_values(|p: ProcessMetrics| p@)
}

/// A copy of a list of processes.
pub fn copy_processes(v: &Vec<ProcessMetrics>) -> (r: Vec<ProcessMetrics>)
    ensures
        processes_view(r@) == processes_view(v@),
{
    let mut r: Vec<ProcessMetrics> = Vec::new();
    let n = v.len();
    let mut i: usize = 0;
    while i < n
        invariant
            n == v@.len(),
            i <= n,
            processes_view(r@) == processes_view(v@.subrange(0, i as int)),
        decreases n - i,
    {
        let p = &v[i];
        let q = ProcessMetrics {
            pid: p.pid,
            name: p.name.clone(),
            cpu_usage_bits: p.cpu_usage_bits,
            memory_rss: p.memory_rss,
            threads: p.threads,
            fd_count: p.fd_count,
            uptime_sec: p.uptime_sec,
        };
        let ghost before = r@;
        r.push(q);
        proof {
            assert(processes_view(r@) =~= processes_view(before).push(q@));
            assert(processes_view(v@.subrange(0, i + 1)) =~= processes_view(
                v@.subrange(0, i as int),
            ).push(v@[i as int]@));
        }
        i = i + 1;
    }
    assert(v@.subrange(0, n as int) =~= v@);
    r
}

/// The latest document received from one server, as the REST API shows it.
#[derive(Debug, Clone)]
pub struct LatestServerMetrics {
    pub recorded_at: Timestamp,
    pub server_runtime: ServerRuntime,
    pub processes: Vec<ProcessMetrics>,
}

/// A snapshot with its processes as views.
pub struct LatestView {
    pub recorded_at: Timestamp,
    pub server_runtime: ServerRuntime,
    pub processes: Seq<ProcessMetricsView>,
}

impl View for LatestServerMetrics {
    type V = LatestView;

    open spec fn view(&self) -> LatestView {
        LatestView {
            recorded_at: self.recorded_at,
            server_runtime: self.server_runtime,
            processes: processes_view(self.processes@),
        }
    }
}

/// The API's view of the runtime counters.
pub open spec fn runtime_of(p: ServerRuntimePayload) -> ServerRuntime {
    ServerRuntime {
        active_users: p.active_users,
        active_calls: p.active_calls,
        active_meetings: p.active_meetings,
        pending_calls: p.pending_calls,
        pending_meeting_requests: p.pending_meeting_requests,
        uptime_sec: p.uptime_sec,
    }
}

/// The API's view of a reported process: the same fields, renamed.
pub open spec fn process_view_matches(p: ProcessPayload, q: ProcessMetrics) -> bool {
    &&& q.pid == p.pid
    &&& q.name@ == p.name@
    &&& q.cpu_usage_bits == p.cpu_usage_percent_bits
    &&& q.memory_rss == p.memory_rss_bytes
    &&& q.threads == p.threads
    &&& q.fd_count == p.fd_count
    &&& q.uptime_sec == p.uptime_sec
}

/// The snapshot kept of a document: its time, its counters and its processes
/// in the order reported.
pub open spec fn is_latest_of(m: GetMetricsResult, l: LatestServerMetrics) -> bool {
    &&& l.recorded_at == m.recorded_at
    &&& l.server_runtime == runtime_of(m.server_runtime)
    &&& l.processes@.len() == m.processes@.len()
    &&& forall|i: int|
        0 <= i < m.processes@.len() ==> process_view_matches(
            #[trigger] m.processes@[i],
            l.processes@[i],
        )
}

/// The snapshot of a document that the REST API serves until the next one.
pub fn latest_from_result(m: &GetMetricsResult) -> (l: LatestServerMetrics)
    ensures
        is_latest_of(*m, l),
{
    let mut processes: Vec<ProcessMetrics> = Vec::new();
    let n = m.processes.len();
    let mut i: usize = 0;
    while i < n
        invariant
            n == m.processes@.len(),
            i <= n,
            processes@.len() == i,
            forall|j: int|
                0 <= j < i ==> process_view_matches(#[trigger] m.processes@[j], processes@[j]),
        decreases n - i,
    {
        let p = &m.processes[i];
        processes.push(
            ProcessMetrics {
                pid: p.pid,
                name: p.name.clone(),
                cpu_usage_bits: p.cpu_usage_percent_bits,
                memory_rss: p.memory_rss_bytes,
                threads: p.threads,
                fd_count: p.fd_count,
                uptime_sec: p.uptime_sec,
            },
        );
        i = i + 1;
    }
    LatestServerMetrics {
        recorded_at: m.recorded_at,
        server_runtime: ServerRuntime {
            active_users: m.server_runtime.active_users,
            active_calls: m.server_runtime.active_calls,
            active_meetings: m.server_runtime.active_meetings,
            pending_calls: m.server_runtime.pending_calls,
            pending_meeting_requests: m.server_runtime.pending_meeting_requests,
            uptime_sec: m.server_runtime.uptime_sec,
        },
        processes,
    }
}

/// The ids of metric names that rows `(id, name)` give; a later row with the
/// same name wins.
pub open spec fn metric_ids_of(rows: Seq<(i16, String)>) -> Map<Seq<char>, i16>
    decreases rows.len(),
{
    if rows.len() == 0 {
        Map::empty()
    } else {
        metric_ids_of(rows.drop_last()).insert(rows.last().1@, rows.last().0)
    }
}

/// The table of metric ids by name, from the rows `(id, name)` of the
/// `metrics` table.
pub fn metric_ids_by_name(rows: &Vec<(i16, String)>) -> (ids: NamedMap<i16>)
    ensures
        ids.map() == metric_ids_of(rows@),
{
    let mut ids: NamedMap<i16> = NamedMap::new();
    let n = rows.len();
    let mut i: usize = 0;
    while i < n
        invariant
            n == rows@.len(),
            i <= n,
            ids.map() == metric_ids_of(rows@.subrange(0, i as int)),
        decreases n - i,
    {
        let (id, name) = &rows[i];
        ids.insert(name.clone(), *id);
        proof {
            assert(rows@.subrange(0, i + 1).drop_last() =~= rows@.subrange(0, i as int));
        }
        i = i + 1;
    }
    assert(rows@.subrange(0, n as int) =~= rows@);
    ids
}

/// The metrics that every document is persisted under.
#[derive(Debug, Clone, Copy, PartialEq, Eq, Structural)]
pub enum MetricName {
    CpuUsage,
    MemoryUsed,
    MemoryAvailable,
    ActiveUsers,
}

impl MetricName {
    /// The name of the metric in the `metrics` table.
    pub open spec fn text(self) -> Seq<char> {
        match self {
            MetricName::CpuUsage => "cpu_usage"@,
            MetricName::MemoryUsed => "memory_used"@,
            MetricName::MemoryAvailable => "memory_available"@,
            MetricName::ActiveUsers => "active_users"@,
        }
    }

    /// The name of the metric in the `metrics` table.
    pub fn name(self) -> (s: &'static str)
        ensures
            s@ == self.text(),
    {
        match self {
            MetricName::CpuUsage => "cpu_usage",
            MetricName::MemoryUsed => "memory_used",
            MetricName::MemoryAvailable => "memory_available",
            MetricName::ActiveUsers => "active_users",
        }
    }
}

/// The ids of the four persisted metrics.
#[derive(Debug, Clone, Copy, PartialEq, Eq, Structural)]
pub struct MetricIdSet {
    pub cpu_usage: i16,
    pub memory_used: i16,
    pub memory_available: i16,
    pub active_users: i16,
}

/// The ids of the four persisted metrics in the table, or the first of
/// `cpu_usage`, `memory_used`, `memory_available`, `active_users` that it lacks.
pub open spec fn resolved_ids(ids: Map<Seq<char>, i16>) -> Result<MetricIdSet, MetricName> {
    if !ids.contains_key("cpu_usage"@) {
        Err(MetricName::CpuUsage)
    } else if !ids.contains_key("memory_used"@) {
        Err(MetricName::MemoryUsed)
    } else if !ids.contains_key("memory_available"@) {
        Err(MetricName::MemoryAvailable)
    } else if !ids.contains_key("active_users"@) {
        Err(MetricName::ActiveUsers)
    } else {
        Ok(
            MetricIdSet {
                cpu_usage: ids["cpu_usage"@],
                memory_used: ids["memory_used"@],
                memory_available: ids["memory_available"@],
                active_users: ids["active_users"@],
            },
        )
    }
}

fn lookup_metric(ids: &NamedMap<i16>, which: MetricName) -> (r: Option<i16>)
    ensures
        match r {
            Some(id) => ids.map().contains_key(which.text()) && id == ids.map()[which.text()],
            None => !ids.map().contains_key(which.text()),
        },
{
    let key = String::from_str(which.name());
    match ids.get(&key) {
        Some(id) => Some(*id),
        None => None,
    }
}

/// The ids under which a document is persisted; refused, naming the metric,
/// when the table lacks one of them.
pub fn resolve_metric_ids(ids: &NamedMap<i16>) -> (r: Result<MetricIdSet, MetricName>)
    ensures
        r == resolved_ids(ids.map()),
{
    let cpu_usage = match lookup_metric(ids, MetricName::CpuUsage) {
        Some(id) => id,
        None => return Err(MetricName::CpuUsage),
    };
    let memory_used = match lookup_metric(ids, MetricName::MemoryUsed) {
        Some(id) => id,
        None => return Err(MetricName::MemoryUsed),
    };
    let memory_available = match lookup_metric(ids, MetricName::MemoryAvailable) {
        Some(id) => id,
        None => return Err(MetricName::MemoryAvailable),
    };
    let active_users = match lookup_metric(ids, MetricName::ActiveUsers) {
        Some(id) => id,
        None => return Err(MetricName::ActiveUsers),
    };
    Ok(MetricIdSet { cpu_usage, memory_used, memory_available, active_users })
}

/// What to do with a received document once its snapshot is stored.
#[derive(Debug, Clone, Copy, PartialEq, Eq, Structural)]
pub enum PersistDecision {
    /// The database is down: the document is not persisted.
    SkipDatabaseUnavailable,
    /// The metric ids are not loaded yet: the document is not persisted.
    SkipIdsNotLoaded,
    /// Persist the document.
    Persist,
}

/// Whether a document can be persisted now.
pub fn persist_decision(db_connected: bool, ids: &NamedMap<i16>) -> (d: PersistDecision)
    ensures
        d == (if !db_connected {
            PersistDecision::SkipDatabaseUnavailable
        } else if ids.map() == Map::<Seq<char>, i16>::empty() {
            PersistDecision::SkipIdsNotLoaded
        } else {
            PersistDecision::Persist
        }),
{
    if !db_connected {
        return PersistDecision::SkipDatabaseUnavailable;
    }
    if ids.len() == 0 {
        proof {
            assert(ids.map() =~= Map::<Seq<char>, i16>::empty());
        }
        PersistDecision::SkipIdsNotLoaded
    } else {
        proof {
            ids.lemma_items();
            assert(ids.map().contains_key(ids.items()[0].0@));
            assert(!Map::<Seq<char>, i16>::empty().contains_key(ids.items()[0].0@));
        }
        PersistDecision::Persist
    }
}

} // verus!
