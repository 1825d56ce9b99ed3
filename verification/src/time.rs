//! Instants, as the service stores and compares them.
use vstd::prelude::*;

verus! {

/// An instant: whole seconds since the Unix epoch, and the nanoseconds into
/// that second (beyond 999 999 999 only within a leap second). Instants are
/// ordered by seconds, then nanoseconds.
#[derive(Debug, Clone, Copy, PartialEq, Eq, Structural)]
pub struct Timestamp {
    pub secs: i64,
    pub nanos: u32,
}

impl Timestamp {
    /// `self` is later than `other`.
    pub open spec fn after(self, other: Timestamp) -> bool {
        self.secs > other.secs || (self.secs == other.secs && self.nanos > other.nanos)
    }

    /// The Unix epoch.
    pub open spec fn epoch() -> Timestamp {
        Timestamp { secs: 0, nanos: 0 }
    }

    /// The Unix epoch.
    pub fn unix_epoch() -> (t: Timestamp)
        ensures
            t == Timestamp::epoch(),
    {
        Timestamp { secs: 0, nanos: 0 }
    }

    /// Whether `self` is later than `other`.
    pub fn is_after(&self, other: &Timestamp) -> (b: bool)
        ensures
            b == self.after(*other),
    {
        self.secs > other.secs || (self.secs == other.secs && self.nanos > other.nanos)
    }
}

} // verus!
