//! Points in time, as the registry records them.

use vstd::prelude::*;

verus! {

/// An instant on the UTC time line: whole seconds since the Unix epoch and the
/// nanoseconds into that second.
///
/// Instants are ordered by the second first and by the nanoseconds within it.
#[derive(Clone, Copy, Debug, PartialEq, Eq, PartialOrd, Ord, Hash, Structural)]
pub struct Timestamp {
    pub secs: i64,
    pub nanos: u32,
}

impl Timestamp {
    /// `self` lies strictly before `other`.
    pub open spec fn is_before(self, other: Timestamp) -> bool {
        self.secs < other.secs || (self.secs == other.secs && self.nanos < other.nanos)
    }

    /// `self` lies strictly after `other`.
    pub open spec fn is_after(self, other: Timestamp) -> bool {
        other.is_before(self)
    }

    /// `self` is `other` or lies after it.
    pub open spec fn not_before(self, other: Timestamp) -> bool {
        !self.is_before(other)
    }

    /// Whether this instant lies strictly before `other`.
    pub fn before(&self, other: &Timestamp) -> (r: bool)
        ensures
            r == self.is_before(*other),
    {
        self.secs < other.secs || (self.secs == other.secs && self.nanos < other.nanos)
    }

    /// Whether this instant lies strictly after `other`.
    pub fn after(&self, other: &Timestamp) -> (r: bool)
        ensures
            r == self.is_after(*other),
    {
        other.before(self)
    }
}

/// Reads the system clock with `chrono::Utc::now` and splits the reading into
/// `timestamp()` and `timestamp_subsec_nanos()`.
///
/// Nothing is claimed of the reading: the clock may stand still between two
/// calls, and an administrator may set it back. `Utc::now` panics where the
/// system clock reads a time before 1970.
#[verifier::external_body]
pub(crate) fn now() -> (t: Timestamp) {
    let reading = chrono::Utc::now();
    Timestamp { secs: reading.timestamp(), nanos: reading.timestamp_subsec_nanos() }
}

} // verus!
