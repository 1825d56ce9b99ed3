//! The monitored servers, the live connection status of each metrics source,
//! and the service status built from them.
//!
//! Times are [`Timestamp`]s, to the nanosecond.
use vstd::prelude::*;
use crate::collections::IdMap;
use crate::time::Timestamp;

verus! {

/// A monitored server, as the `servers` table holds it.
#[derive(Debug, Clone)]
pub struct Server {
    pub id: i64,
    pub host: String,
    pub port: String,
    pub is_active: bool,
}

/// A server with its text fields as character sequences.
pub struct ServerView {
    pub id: i64,
    pub host: Seq<char>,
    pub port: Seq<char>,
    pub is_active: bool,
}

impl View for Server {
    type V = ServerView;

    open spec fn view(&self) -> ServerView {
        ServerView { id: self.id, host: self.host@, port: self.port@, is_active: self.is_active }
    }
}

/// The live connection status of the metrics source of one server.
#[derive(Debug, Clone)]
pub struct SourceRuntimeStatus {
    pub server_id: i64,
    pub host: String,
    pub port: String,
    pub connected: bool,
    /// When `connected` last changed.
    pub last_change: Timestamp,
    pub last_error: Option<String>,
}

/// A source status with its text fields as character sequences.
pub struct SourceStatusView {
    pub server_id: i64,
    pub host: Seq<char>,
    pub port: Seq<char>,
    pub connected: bool,
    pub last_change: Timestamp,
    pub last_error: Option<Seq<char>>,
}

/// The text of an optional string.
pub open spec fn opt_view(s: Option<String>) -> Option<Seq<char>> {
    match s {
        Some(t) => Some(t@),
        None => None,
    }
}

impl View for SourceRuntimeStatus {
    type V = SourceStatusView;

    open spec fn view(&self) -> SourceStatusView {
        SourceStatusView {
            server_id: self.server_id,
            host: self.host@,
            port: self.port@,
            connected: self.connected,
            last_change: self.last_change,
            last_error: opt_view(self.last_error),
        }
    }
}

/// A copy of an optional string.
pub fn copy_opt_string(s: &Option<String>) -> (r: Option<String>)
    ensures
        opt_view(r) == opt_view(*s),
{
    match s {
        Some(t) => Some(t.clone()),
        None => None,
    }
}

impl SourceRuntimeStatus {
    /// A copy of this status.
    pub fn duplicate(&self) -> (r: SourceRuntimeStatus)
        ensures
            r@ == self@,
    {
        SourceRuntimeStatus {
            server_id: self.server_id,
            host: self.host.clone(),
            port: self.port.clone(),
            connected: self.connected,
            last_change: self.last_change,
            last_error: copy_opt_string(&self.last_error),
        }
    }
}

/// The statuses of all sources, by server id.
pub type StatusBoard = IdMap<SourceRuntimeStatus>;

/// The views of the statuses on a board.
pub open spec fn board_view(board: Map<i64, SourceRuntimeStatus>) -> Map<i64, SourceStatusView> {
    board.map_values(|s: SourceRuntimeStatus| s@)
}

/// The statuses a board starts from: every server known, none connected yet.
pub open spec fn initial_board(servers: Seq<Server>, now: Timestamp) -> Map<i64, SourceStatusView>
    decreases servers.len(),
{
    if servers.len() == 0 {
        Map::empty()
    } else {
        let s = servers.last();
        initial_board(servers.drop_last(), now).insert(
            s.id,
            SourceStatusView {
                server_id: s.id,
                host: s.host@,
                port: s.port@,
                connected: false,
                last_change: now,
                last_error: Some("not connected yet"@),
            },
        )
    }
}

/// The board at start-up: each listed server not connected yet.
pub fn initial_statuses(servers: &Vec<Server>, now: Timestamp) -> (board: StatusBoard)
    ensures
        board_view(board.map()) == initial_board(servers@, now),
{
    let mut board: StatusBoard = IdMap::new();
    let n = servers.len();
    let mut i: usize = 0;
    proof {
        assert(board_view(board.map()) =~= initial_board(servers@.subrange(0, 0), now));
    }
    while i < n
        invariant
            n == servers@.len(),
            i <= n,
            board_view(board.map()) == initial_board(servers@.subrange(0, i as int), now),
        decreases n - i,
    {
        let s = &servers[i];
        let status = SourceRuntimeStatus {
            server_id: s.id,
            host: s.host.clone(),
            port: s.port.clone(),
            connected: false,
            last_change: now,
            last_error: Some(String::from_str("not connected yet")),
        };
        let ghost before = board.map();
        board.insert(s.id, status);
        proof {
            assert(servers@.subrange(0, i + 1).drop_last() =~= servers@.subrange(0, i as int));
            assert(board_view(board.map()) =~= board_view(before).insert(s.id, status@));
        }
        i = i + 1;
    }
    assert(servers@.subrange(0, n as int) =~= servers@);
    board
}

/// The status of a source after it reported `connected` and `error`:
/// `last_change` moves to `now` only when `connected` flips; a source not on
/// the board yet enters it with the given host and port.
pub open spec fn updated_status(
    prev: Option<SourceStatusView>,
    server_id: i64,
    host: Seq<char>,
    port: Seq<char>,
    connected: bool,
    error: Option<Seq<char>>,
    now: Timestamp,
) -> SourceStatusView {
    match prev {
        None => SourceStatusView {
            server_id,
            host,
            port,
            connected,
            last_change: now,
            last_error: error,
        },
        Some(p) => SourceStatusView {
            server_id: p.server_id,
            host: p.host,
            port: p.port,
            connected,
            last_change: if p.connected != connected {
                now
            } else {
                p.last_change
            },
            last_error: error,
        },
    }
}

/// The view of the status under `k`, if any.
pub open spec fn status_at(board: Map<i64, SourceRuntimeStatus>, k: i64) -> Option<
    SourceStatusView,
> {
    if board.contains_key(k) {
        Some(board[k]@)
    } else {
        None
    }
}

/// Records what the source of server `server_id` reported.
pub fn record_status(
    board: &mut StatusBoard,
    server_id: i64,
    host: String,
    port: String,
    connected: bool,
    error: Option<String>,
    now: Timestamp,
)
    ensures
        board_view(final(board).map()) == board_view(old(board).map()).insert(
            server_id,
            updated_status(
                status_at(old(board).map(), server_id),
                server_id,
                host@,
                port@,
                connected,
                opt_view(error),
                now,
            ),
        ),
{
    let ghost before = board.map();
    let entry = match board.take(server_id) {
        Some(mut prev) => {
            if prev.connected != connected {
                prev.connected = connected;
                prev.last_change = now;
            }
            prev.last_error = error;
            prev
        },
        None => SourceRuntimeStatus {
            server_id,
            host,
            port,
            connected,
            last_change: now,
            last_error: error,
        },
    };
    let ghost e = entry;
    board.insert(server_id, entry);
    proof {
        assert(board_view(board.map()) =~= board_view(before).insert(server_id, e@));
    }
}

/// The moment of the last change moves only when the connection status flips,
/// and then to the time of the report.
pub proof fn lemma_last_change_moves_on_flip(
    prev: SourceStatusView,
    connected: bool,
    error: Option<Seq<char>>,
    now: Timestamp,
)
    ensures
        ({
            let next = updated_status(
                Some(prev),
                prev.server_id,
                prev.host,
                prev.port,
                connected,
                error,
                now,
            );
            &&& next.connected == connected
            &&& next.last_error == error
            &&& (prev.connected != connected ==> next.last_change == now)
            &&& (prev.connected == connected ==> next.last_change == prev.last_change)
            &&& next.server_id == prev.server_id && next.host == prev.host && next.port
                == prev.port
        }),
{
}

/// The service status as the REST API reports it.
#[derive(Debug)]
pub struct ServiceStatusResponse {
    /// `healthy` or `degraded`.
    pub status: String,
    pub db_connected: bool,
    pub sources_total: usize,
    pub sources_connected: usize,
    /// The sources, by ascending server id.
    pub sources: Vec<SourceRuntimeStatus>,
}

/// The number of connected sources in `s`.
pub open spec fn count_connected(s: Seq<SourceStatusView>) -> nat
    decreases s.len(),
{
    if s.len() == 0 {
        0
    } else {
        count_connected(s.drop_last()) + if s.last().connected {
            1nat
        } else {
            0nat
        }
    }
}

/// The views of a sequence of statuses.
pub open spec fn views(s: Seq<SourceRuntimeStatus>) -> Seq<SourceStatusView> {
    s.map_values(|x: SourceRuntimeStatus| x@)
}

/// `s` is in ascending order of server id.
pub open spec fn sorted_by_server(s: Seq<SourceStatusView>) -> bool {
    forall|a: int, b: int| 0 <= a < b < s.len() ==> s[a].server_id <= s[b].server_id
}

/// The statuses on a board, in the board's own order.
pub open spec fn board_statuses(items: Seq<(i64, SourceRuntimeStatus)>) -> Seq<SourceStatusView> {
    items.map_values(|e: (i64, SourceRuntimeStatus)| e.1@)
}

/// `healthy` when the database is up and every one of at least one source is
/// connected, `degraded` otherwise.
pub open spec fn health_text(db_connected: bool, total: nat, connected: nat) -> Seq<char> {
    if db_connected && total > 0 && connected == total {
        "healthy"@
    } else {
        "degraded"@
    }
}

/// The verdict is `healthy` exactly when the database is up and every one of
/// at least one source is connected, and `degraded` otherwise.
pub proof fn lemma_health_verdict(db_connected: bool, total: nat, connected: nat)
    ensures
        (health_text(db_connected, total, connected) == "healthy"@) <==> (db_connected && total
            > 0 && connected == total),
        (health_text(db_connected, total, connected) == "degraded"@) <==> !(db_connected && total
            > 0 && connected == total),
{
    reveal_strlit("healthy");
    reveal_strlit("degraded");
    assert("healthy"@[0] != "degraded"@[0]);
}

/// No more sources are connected than there are, and all of them are exactly
/// when every one is.
pub proof fn lemma_count_connected_all(s: Seq<SourceStatusView>)
    ensures
        count_connected(s) <= s.len(),
        (count_connected(s) == s.len()) <==> (forall|i: int| 0 <= i < s.len() ==> #[trigger] s[i].connected),
    decreases s.len(),
{
    if s.len() > 0 {
        lemma_count_connected_all(s.drop_last());
        if forall|i: int| 0 <= i < s.len() ==> #[trigger] s[i].connected {
            assert forall|i: int| 0 <= i < s.drop_last().len() implies #[trigger] s.drop_last()[i].connected by {
                assert(s.drop_last()[i] == s[i]);
            }
        } else if count_connected(s) == s.len() {
            let k = choose|i: int| 0 <= i < s.len() && !(#[trigger] s[i].connected);
            if k < s.len() - 1 {
                assert(s.drop_last()[k] == s[k]);
            }
        }
    }
}

proof fn lemma_count_connected_push(s: Seq<SourceStatusView>, x: SourceStatusView)
    ensures
        count_connected(s.push(x)) == count_connected(s) + if x.connected {
            1nat
        } else {
            0nat
        },
{
    assert(s.push(x).drop_last() =~= s);
}

/// The service status: the database flag, every source by ascending server
/// id, how many there are and how many are connected, and the overall verdict.
pub fn service_status(db_connected: bool, board: &StatusBoard) -> (r: ServiceStatusResponse)
    ensures
        r.db_connected == db_connected,
        views(r.sources@).to_multiset() == board_statuses(board.items()).to_multiset(),
        sorted_by_server(views(r.sources@)),
        r.sources_total == r.sources@.len(),
        r.sources_total == board.items().len(),
        r.sources_connected == count_connected(views(r.sources@)),
        r.status@ == health_text(db_connected, r.sources_total as nat, r.sources_connected as nat),
        (r.status@ == "healthy"@) <==> (db_connected && r.sources_total > 0 && r.sources_connected
            == r.sources_total),
        r.status@ == "healthy"@ || r.status@ == "degraded"@,
        (r.status@ == "healthy"@) <==> (db_connected && r.sources@.len() > 0 && forall|i: int|
            0 <= i < r.sources@.len() ==> #[trigger] r.sources@[i].connected),
{
    broadcast use vstd::seq_lib::group_to_multiset_ensures;

    let n = board.len();
    let mut sorted: Vec<SourceRuntimeStatus> = Vec::new();
    let mut i: usize = 0;
    while i < n
        invariant
            n == board.items().len(),
            i <= n,
            sorted@.len() == i,
            sorted_by_server(views(sorted@)),
            views(sorted@).to_multiset() == board_statuses(board.items().subrange(
                0,
                i as int,
            )).to_multiset(),
        decreases n - i,
    {
        let s = board.entry(i).1.duplicate();
        let mut j: usize = 0;
        while j < sorted.len() && sorted[j].server_id <= s.server_id
            invariant
                j <= sorted@.len(),
                forall|a: int| 0 <= a < j ==> sorted@[a].server_id <= s.server_id,
            decreases sorted@.len() - j,
        {
            j = j + 1;
        }
        let ghost old_sorted = sorted@;
        let ghost sv = s@;
        sorted.insert(j, s);
        proof {
            assert(views(sorted@) =~= views(old_sorted).insert(j as int, sv));
            assert forall|a: int, b: int|
                0 <= a < b < views(sorted@).len() implies views(sorted@)[a].server_id <= views(
                sorted@,
            )[b].server_id by {
                if b == j {
                    assert(sorted@[a] == old_sorted[a]);
                } else if a == j {
                    assert(sorted@[b] == old_sorted[b - 1]);
                    if (b - 1 > j) {
                        assert(views(old_sorted)[j as int].server_id <= views(old_sorted)[b
                            - 1].server_id);
                    }
                } else {
                    let a0 = if a < j { a } else { a - 1 };
                    let b0 = if b < j { b } else { b - 1 };
                    assert(sorted@[a] == old_sorted[a0]);
                    assert(sorted@[b] == old_sorted[b0]);
                }
            }
            assert(board_statuses(board.items().subrange(0, i + 1)) =~= board_statuses(
                board.items().subrange(0, i as int),
            ).push(sv));
            vstd::seq_lib::to_multiset_insert(views(old_sorted), j as int, sv);
            vstd::seq_lib::to_multiset_build(
                board_statuses(board.items().subrange(0, i as int)),
                sv,
            );
        }
        i = i + 1;
    }
    assert(board.items().subrange(0, n as int) =~= board.items());
    let total = sorted.len();
    let mut connected_count: usize = 0;
    let mut k: usize = 0;
    while k < total
        invariant
            total == sorted@.len(),
            k <= total,
            connected_count == count_connected(views(sorted@).subrange(0, k as int)),
            connected_count <= k,
        decreases total - k,
    {
        proof {
            assert(views(sorted@).subrange(0, k + 1) =~= views(sorted@).subrange(
                0,
                k as int,
            ).push(sorted@[k as int]@));
            lemma_count_connected_push(views(sorted@).subrange(0, k as int), sorted@[k as int]@);
        }
        if sorted[k].connected {
            connected_count = connected_count + 1;
        }
        k = k + 1;
    }
    assert(views(sorted@).subrange(0, total as int) =~= views(sorted@));
    proof {
        lemma_health_verdict(db_connected, total as nat, connected_count as nat);
        lemma_count_connected_all(views(sorted@));
        assert forall|i: int| 0 <= i < sorted@.len() implies (#[trigger] sorted@[i].connected
            <==> views(sorted@)[i].connected) by {}
    }
    let status = if db_connected && total > 0 && connected_count == total {
        String::from_str("healthy")
    } else {
        String::from_str("degraded")
    };
    ServiceStatusResponse {
        status,
        db_connected,
        sources_total: total,
        sources_connected: connected_count,
        sources: sorted,
    }
}

} // verus!
