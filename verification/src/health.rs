//! The database health flag: a periodic ping keeps it current, and a failed
//! write marks the database down until the next successful ping.
use vstd::prelude::*;

verus! {

/// What one round of the database supervisor does.
#[derive(Debug, Clone, Copy, PartialEq, Eq, Structural)]
pub struct SupervisorStep {
    /// The health flag after the round.
    pub connected: bool,
    /// Announce that the database is reachable again.
    pub log_restored: bool,
    /// Announce that the service runs degraded.
    pub log_lost: bool,
    /// (Re)load the table of metric ids.
    pub load_metric_ids: bool,
}

/// One supervisor round: the flag follows the ping; a change is announced;
/// the metric ids are loaded when the database answers and none are loaded.
pub fn supervisor_step(was_connected: bool, ping_ok: bool, ids_loaded: bool) -> (s: SupervisorStep)
    ensures
        s.connected == ping_ok,
        s.log_restored == (ping_ok && !was_connected),
        s.log_lost == (!ping_ok && was_connected),
        s.load_metric_ids == (ping_ok && !ids_loaded),
{
    if ping_ok {
        SupervisorStep {
            connected: true,
            log_restored: !was_connected,
            log_lost: false,
            load_metric_ids: !ids_loaded,
        }
    } else {
        SupervisorStep {
            connected: false,
            log_restored: false,
            log_lost: was_connected,
            load_metric_ids: false,
        }
    }
}

/// The health flag after a write of metrics: a failed write marks the
/// database down; a successful one leaves the flag as it was.
pub fn connected_after_write(db_connected: bool, write_ok: bool) -> (c: bool)
    ensures
        c == (db_connected && write_ok),
{
    db_connected && write_ok
}

} // verus!
