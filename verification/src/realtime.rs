//! The realtime view of the monitored servers: whether each is up, its
//! latest persisted metric values, and the latest document its agent sent.
//!
//! Times are [`Timestamp`]s, to the nanosecond; metric values are the bit
//! patterns of their `f64` values.
use vstd::prelude::*;
use crate::collections::{IdMap, NamedMap};
use crate::time::Timestamp;
use crate::reports::{ApiError, STATUS_NOT_FOUND};
use crate::metrics::{
    copy_processes, processes_view, LatestServerMetrics, LatestView, ProcessMetrics,
    ProcessMetricsView, ServerRuntime,
};
use crate::status::{
    copy_opt_string, opt_view, Server, ServerView, SourceRuntimeStatus, SourceStatusView,
    StatusBoard,
};

verus! {

/// The latest persisted value of one metric of one server.
#[derive(Debug, Clone)]
pub struct ServerMetricValue {
    pub server_id: i64,
    pub metric_id: i16,
    pub metric_name: String,
    /// Bits of the value.
    pub value_bits: u64,
    pub time: Timestamp,
}

/// One server in the realtime view.
#[derive(Debug)]
pub struct ServerRealtime {
    pub id: i64,
    pub host: String,
    pub port: String,
    /// `up` or `down`.
    pub status: String,
    pub last_change: Option<Timestamp>,
    pub last_error: Option<String>,
    pub metrics: Option<NamedMap<u64>>,
    pub recorded_at: Option<Timestamp>,
    pub server_runtime: Option<ServerRuntime>,
    pub processes: Option<Vec<ProcessMetrics>>,
}

/// The realtime view of all servers.
#[derive(Debug)]
pub struct RealtimeMetricsResponse {
    pub servers: Vec<ServerRealtime>,
}

/// A realtime entry with its text, maps and lists as views.
pub struct ServerRealtimeView {
    pub id: i64,
    pub host: Seq<char>,
    pub port: Seq<char>,
    pub status: Seq<char>,
    pub last_change: Option<Timestamp>,
    pub last_error: Option<Seq<char>>,
    pub metrics: Option<Map<Seq<char>, u64>>,
    pub recorded_at: Option<Timestamp>,
    pub server_runtime: Option<ServerRuntime>,
    pub processes: Option<Seq<ProcessMetricsView>>,
}

impl View for ServerRealtime {
    type V = ServerRealtimeView;

    open spec fn view(&self) -> ServerRealtimeView {
        ServerRealtimeView {
            id: self.id,
            host: self.host@,
            port: self.port@,
            status: self.status@,
            last_change: self.last_change,
            last_error: opt_view(self.last_error),
            metrics: match self.metrics {
                Some(m) => Some(m.map()),
                None => None,
            },
            recorded_at: self.recorded_at,
            server_runtime: self.server_runtime,
            processes: match self.processes {
                Some(p) => Some(processes_view(p@)),
                None => None,
            },
        }
    }
}

/// The metric values and the time of one server, as grouped from the rows.
pub open spec fn group_view(g: (NamedMap<u64>, Timestamp)) -> (Map<Seq<char>, u64>, Timestamp) {
    (g.0.map(), g.1)
}

/// The connection facts of a server's source: connected, last change and
/// last error; an unknown source counts as down.
pub open spec fn source_facts(status: Option<SourceStatusView>) -> (bool, Option<Timestamp>, Option<
    Seq<char>,
>) {
    match status {
        Some(v) => (v.connected, Some(v.last_change), v.last_error),
        None => (false, None, Some("source status unknown"@)),
    }
}

/// The realtime entry of a server. A server whose source is not connected is
/// `down` and shows nothing more than its source's facts. A connected one is
/// `up` and shows the metric values of `group` (none, timed `now`, without a
/// group), the time of the latest document if there is one and the group's
/// time otherwise, and the latest document's counters and processes.
pub open spec fn realtime_entry(
    server: ServerView,
    status: Option<SourceStatusView>,
    latest: Option<LatestView>,
    group: Option<(Map<Seq<char>, u64>, Timestamp)>,
    now: Timestamp,
) -> ServerRealtimeView {
    let (connected, last_change, last_error) = source_facts(status);
    if !connected {
        ServerRealtimeView {
            id: server.id,
            host: server.host,
            port: server.port,
            status: "down"@,
            last_change,
            last_error,
            metrics: None,
            recorded_at: None,
            server_runtime: None,
            processes: None,
        }
    } else {
        let (metrics, group_time) = match group {
            Some(g) => g,
            None => (Map::empty(), now),
        };
        ServerRealtimeView {
            id: server.id,
            host: server.host,
            port: server.port,
            status: "up"@,
            last_change,
            last_error,
            metrics: Some(metrics),
            recorded_at: Some(
                match latest {
                    Some(l) => l.recorded_at,
                    None => group_time,
                },
            ),
            server_runtime: match latest {
                Some(l) => Some(l.server_runtime),
                None => None,
            },
            processes: match latest {
                Some(l) => Some(l.processes),
                None => None,
            },
        }
    }
}

/// What a realtime entry says of its server, clause by clause: it names the
/// server; a server whose source status is known carries that status's last
/// change and last error whether it is up or down, and one whose source is
/// unknown is down with no last change and the error `source status unknown`;
/// a connected one is `up` with metric values and a recording time, the
/// latest document's when there is one, else the group's (none at `now`
/// without a group); one that is not connected is `down` and shows no metric
/// values, recording time, counters or processes.
pub proof fn lemma_entry_carries_source_facts(
    server: ServerView,
    status: Option<SourceStatusView>,
    latest: Option<LatestView>,
    group: Option<(Map<Seq<char>, u64>, Timestamp)>,
    now: Timestamp,
)
    ensures
        ({
            let r = realtime_entry(server, status, latest, group, now);
            &&& r.id == server.id
            &&& r.host == server.host
            &&& r.port == server.port
            &&& (status matches Some(s) ==> r.last_change == Some(s.last_change) && r.last_error
                == s.last_error)
            &&& (status is None ==> r.last_change is None && r.last_error == Some(
                "source status unknown"@,
            ) && r.status == "down"@)
            &&& (status matches Some(s) && s.connected ==> {
                &&& r.status == "up"@
                &&& r.metrics == Some(
                    match group {
                        Some(g) => g.0,
                        None => Map::<Seq<char>, u64>::empty(),
                    },
                )
                &&& r.recorded_at == Some(
                    match latest {
                        Some(l) => l.recorded_at,
                        None => match group {
                            Some(g) => g.1,
                            None => now,
                        },
                    },
                )
                &&& (latest matches Some(l) ==> r.server_runtime == Some(l.server_runtime)
                    && r.processes == Some(l.processes))
                &&& (latest is None ==> r.server_runtime is None && r.processes is None)
            })
            &&& (!(status matches Some(s) && s.connected) ==> {
                &&& r.status == "down"@
                &&& r.metrics is None
                &&& r.recorded_at is None
                &&& r.server_runtime is None
                &&& r.processes is None
            })
        }),
{
}

/// Whether the source of a server is connected; an unknown one is not.
pub fn source_connected(status: Option<&SourceRuntimeStatus>) -> (b: bool)
    ensures
        b == source_facts(
            match status {
                Some(s) => Some(s@),
                None => None,
            },
        ).0,
{
    match status {
        Some(s) => s.connected,
        None => false,
    }
}

/// The realtime entry of `server`, from its source's status, the latest
/// document of its agent and its grouped metric values.
pub fn server_realtime(
    server: &Server,
    status: Option<&SourceRuntimeStatus>,
    latest: Option<&LatestServerMetrics>,
    group: Option<(NamedMap<u64>, Timestamp)>,
    now: Timestamp,
) -> (r: ServerRealtime)
    ensures
        r@ == realtime_entry(
            server@,
            match status {
                Some(s) => Some(s@),
                None => None,
            },
            match latest {
                Some(l) => Some(l@),
                None => None,
            },
            match group {
                Some(g) => Some(group_view(g)),
                None => None,
            },
            now,
        ),
        r.id == server.id,
        status matches Some(s) ==> r.last_change == Some(s.last_change) && opt_view(r.last_error)
            == opt_view(s.last_error),
        status is None ==> r.last_change is None,
        (r.status@ == "up"@) <==> (status matches Some(s) && s.connected),
        !(status matches Some(s) && s.connected) ==> r.metrics is None && r.recorded_at is None,
{
    proof {
        reveal_strlit("up");
        reveal_strlit("down");
        assert("up"@[0] != "down"@[0]);
    }
    let (connected, last_change, last_error) = match status {
        Some(v) => (v.connected, Some(v.last_change), copy_opt_string(&v.last_error)),
        None => (false, None, Some(String::from_str("source status unknown"))),
    };
    if !connected {
        return ServerRealtime {
            id: server.id,
            host: server.host.clone(),
            port: server.port.clone(),
            status: String::from_str("down"),
            last_change,
            last_error,
            metrics: None,
            recorded_at: None,
            server_runtime: None,
            processes: None,
        };
    }
    let (metrics, group_time) = match group {
        Some(g) => g,
        None => (NamedMap::new(), now),
    };
    let (recorded_at, server_runtime, processes) = match latest {
        Some(l) => (l.recorded_at, Some(l.server_runtime), Some(copy_processes(&l.processes))),
        None => (group_time, None, None),
    };
    ServerRealtime {
        id: server.id,
        host: server.host.clone(),
        port: server.port.clone(),
        status: String::from_str("up"),
        last_change,
        last_error,
        metrics: Some(metrics),
        recorded_at: Some(recorded_at),
        server_runtime,
        processes,
    }
}

/// The metric values and time of each server, from the rows in order: a
/// later value of the same metric wins, and the time is the latest row time,
/// starting from the epoch.
pub open spec fn grouped(rows: Seq<ServerMetricValue>) -> Map<i64, (Map<Seq<char>, u64>, Timestamp)>
    decreases rows.len(),
{
    if rows.len() == 0 {
        Map::empty()
    } else {
        let prev = grouped(rows.drop_last());
        let r = rows.last();
        let (m, t) = if prev.contains_key(r.server_id) {
            prev[r.server_id]
        } else {
            (Map::empty(), Timestamp::epoch())
        };
        prev.insert(
            r.server_id,
            (
                m.insert(r.metric_name@, r.value_bits),
                if r.time.after(t) {
                    r.time
                } else {
                    t
                },
            ),
        )
    }
}

/// The views of the groups of a map of groups.
pub open spec fn groups_view(g: Map<i64, (NamedMap<u64>, Timestamp)>) -> Map<
    i64,
    (Map<Seq<char>, u64>, Timestamp),
> {
    g.map_values(|x: (NamedMap<u64>, Timestamp)| group_view(x))
}

/// The metric values and time of each server that appears in `rows`.
pub fn group_by_server(rows: &Vec<ServerMetricValue>) -> (groups: IdMap<(NamedMap<u64>, Timestamp)>)
    ensures
        groups_view(groups.map()) == grouped(rows@),
{
    let mut groups: IdMap<(NamedMap<u64>, Timestamp)> = IdMap::new();
    let n = rows.len();
    let mut i: usize = 0;
    proof {
        assert(groups_view(groups.map()) =~= grouped(rows@.subrange(0, 0)));
    }
    while i < n
        invariant
            n == rows@.len(),
            i <= n,
            groups_view(groups.map()) == grouped(rows@.subrange(0, i as int)),
        decreases n - i,
    {
        let r = &rows[i];
        let ghost before = groups.map();
        let (mut m, mut t) = match groups.take(r.server_id) {
            Some(g) => g,
            None => (NamedMap::new(), Timestamp::unix_epoch()),
        };
        m.insert(r.metric_name.clone(), r.value_bits);
        if r.time.is_after(&t) {
            t = r.time;
        }
        let ghost g = (m, t);
        groups.insert(r.server_id, (m, t));
        proof {
            assert(rows@.subrange(0, i + 1).drop_last() =~= rows@.subrange(0, i as int));
            assert(rows@.subrange(0, i + 1).last() == rows@[i as int]);
            assert(groups_view(groups.map()) =~= groups_view(before).insert(
                r.server_id,
                group_view(g),
            ));
        }
        i = i + 1;
    }
    assert(rows@.subrange(0, n as int) =~= rows@);
    groups
}

/// Some earlier server in the list has the same id.
pub open spec fn seen_before(servers: Seq<Server>, i: int) -> bool {
    exists|j: int| 0 <= j < i && servers[j].id == servers[i].id
}

/// The view of the status of the source of server `id`, if known.
pub open spec fn status_of(statuses: Map<i64, SourceRuntimeStatus>, id: i64) -> Option<
    SourceStatusView,
> {
    if statuses.contains_key(id) {
        Some(statuses[id]@)
    } else {
        None
    }
}

/// The view of the latest document of server `id`, if any.
pub open spec fn latest_of(latest: Map<i64, LatestServerMetrics>, id: i64) -> Option<LatestView> {
    if latest.contains_key(id) {
        Some(latest[id]@)
    } else {
        None
    }
}

/// Whether the source of server `id` is known and connected.
pub open spec fn connected_id(statuses: Map<i64, SourceRuntimeStatus>, id: i64) -> bool {
    statuses.contains_key(id) && statuses[id].connected
}

/// The group that server `i` of the list gets: its own, unless an earlier
/// entry of the list already took it.
pub open spec fn group_for(
    servers: Seq<Server>,
    i: int,
    groups: Map<i64, (Map<Seq<char>, u64>, Timestamp)>,
) -> Option<(Map<Seq<char>, u64>, Timestamp)> {
    if !seen_before(servers, i) && groups.contains_key(servers[i].id) {
        Some(groups[servers[i].id])
    } else {
        None
    }
}

/// The realtime view of every listed server, in the order of the list: each
/// with its source's status, the latest document of its agent and its latest
/// persisted metric values from `rows`.
pub fn realtime_overview(
    servers: &Vec<Server>,
    rows: &Vec<ServerMetricValue>,
    statuses: &StatusBoard,
    latest: &IdMap<LatestServerMetrics>,
    now: Timestamp,
) -> (r: RealtimeMetricsResponse)
    ensures
        r.servers@.len() == servers@.len(),
        forall|i: int|
            0 <= i < servers@.len() ==> #[trigger] r.servers@[i]@ == realtime_entry(
                servers@[i]@,
                status_of(statuses.map(), servers@[i].id),
                latest_of(latest.map(), servers@[i].id),
                group_for(servers@, i, grouped(rows@)),
                now,
            ),
{
    let mut groups = group_by_server(rows);
    let ghost all = grouped(rows@);
    let mut out: Vec<ServerRealtime> = Vec::new();
    let n = servers.len();
    let mut i: usize = 0;
    while i < n
        invariant
            n == servers@.len(),
            i <= n,
            out@.len() == i,
            all == grouped(rows@),
            forall|k: i64|
                #[trigger] groups_view(groups.map()).contains_key(k) <==> (all.contains_key(k)
                    && !(exists|j: int|
                    0 <= j < i && servers@[j].id == k && connected_id(statuses.map(), k))),
            forall|k: i64|
                #[trigger] groups_view(groups.map()).contains_key(k) ==> groups_view(
                    groups.map(),
                )[k] == all[k],
            forall|a: int|
                0 <= a < i ==> #[trigger] out@[a]@ == realtime_entry(
                    servers@[a]@,
                    status_of(statuses.map(), servers@[a].id),
                    latest_of(latest.map(), servers@[a].id),
                    group_for(servers@, a, all),
                    now,
                ),
        decreases n - i,
    {
        let s = &servers[i];
        let status = statuses.get(s.id);
        let last = latest.get(s.id);
        let connected = source_connected(status);
        let ghost before = groups.map();
        let group = if connected {
            groups.take(s.id)
        } else {
            None
        };
        proof {
            let k = s.id;
            assert(connected == connected_id(statuses.map(), k));
            if connected {
                assert(groups_view(groups.map()) =~= groups_view(before).remove(k));
            } else {
                assert(groups.map() == before);
            }
            if connected {
                if seen_before(servers@, i as int) {
                    let j = choose|j: int| 0 <= j < i && servers@[j].id == servers@[i as int].id;
                    assert(!groups_view(before).contains_key(k));
                } else {
                    assert(groups_view(before).contains_key(k) == all.contains_key(k));
                }
            }
            assert forall|key: i64|
                #[trigger] groups_view(groups.map()).contains_key(key) <==> (all.contains_key(key)
                    && !(exists|j: int|
                    0 <= j < i + 1 && servers@[j].id == key && connected_id(statuses.map(), key))) by {
                if key == k && connected {
                    assert(servers@[i as int].id == key);
                } else if key != k {
                    if exists|j: int|
                        0 <= j < i + 1 && servers@[j].id == key && connected_id(statuses.map(), key) {
                        let j = choose|j: int|
                            0 <= j < i + 1 && servers@[j].id == key && connected_id(statuses.map(), key);
                        assert(j < i);
                    }
                } else {
                    if exists|j: int|
                        0 <= j < i + 1 && servers@[j].id == key && connected_id(statuses.map(), key) {
                        assert(false);
                    }
                }
            }
        }
        let entry = server_realtime(s, status, last, group, now);
        proof {
            if connected {
                assert(group_for(servers@, i as int, all) == match group {
                    Some(g) => Some(group_view(g)),
                    None => None::<(Map<Seq<char>, u64>, Timestamp)>,
                });
            }
        }
        out.push(entry);
        i = i + 1;
    }
    RealtimeMetricsResponse { servers: out }
}

/// The metric values of one server from its rows (a later value of the same
/// metric wins), and the time of its first row, or `now` without rows.
pub open spec fn server_group(rows: Seq<ServerMetricValue>, now: Timestamp) -> (
    Map<Seq<char>, u64>,
    Timestamp,
) {
    (values_of(rows), if rows.len() > 0 { rows[0].time } else { now })
}

/// The metric values that rows give, a later value of the same metric winning.
pub open spec fn values_of(rows: Seq<ServerMetricValue>) -> Map<Seq<char>, u64>
    decreases rows.len(),
{
    if rows.len() == 0 {
        Map::empty()
    } else {
        values_of(rows.drop_last()).insert(rows.last().metric_name@, rows.last().value_bits)
    }
}

/// The metric values and time that the rows of one server give.
pub fn server_metrics_group(rows: &Vec<ServerMetricValue>, now: Timestamp) -> (g: (NamedMap<u64>, Timestamp))
    ensures
        group_view(g) == server_group(rows@, now),
{
    let mut m: NamedMap<u64> = NamedMap::new();
    let n = rows.len();
    let mut i: usize = 0;
    while i < n
        invariant
            n == rows@.len(),
            i <= n,
            m.map() == values_of(rows@.subrange(0, i as int)),
        decreases n - i,
    {
        m.insert(rows[i].metric_name.clone(), rows[i].value_bits);
        proof {
            assert(rows@.subrange(0, i + 1).drop_last() =~= rows@.subrange(0, i as int));
        }
        i = i + 1;
    }
    assert(rows@.subrange(0, n as int) =~= rows@);
    let t = if n > 0 {
        rows[0].time
    } else {
        now
    };
    (m, t)
}

/// The first listed server with id `id`; 404 when none has it.
pub fn find_server(servers: Vec<Server>, id: i64) -> (r: Result<Server, ApiError>)
    ensures
        match r {
            Ok(s) => exists|i: int|
                0 <= i < servers@.len() && servers@[i] == s && s.id == id && forall|j: int|
                    0 <= j < i ==> servers@[j].id != id,
            Err(e) => (forall|i: int| 0 <= i < servers@.len() ==> servers@[i].id != id)
                && e.status == STATUS_NOT_FOUND && e.error@ == "Server not found"@,
        },
{
    let mut list = servers;
    let n = list.len();
    let mut i: usize = 0;
    while i < n
        invariant
            list@ == servers@,
            n == servers@.len(),
            i <= n,
            forall|j: int| 0 <= j < i ==> servers@[j].id != id,
        decreases n - i,
    {
        if list[i].id == id {
            let s = list.remove(i);
            assert(servers@[i as int] == s);
            return Ok(s);
        }
        i = i + 1;
    }
    Err(ApiError::new(STATUS_NOT_FOUND, String::from_str("Server not found")))
}

} // verus!
