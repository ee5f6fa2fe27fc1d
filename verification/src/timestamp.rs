//! Points in time at which a file was last modified.

use vstd::prelude::*;

verus! {

/// A modification time, counted in nanoseconds from the Unix epoch.  Times
/// before the epoch are negative.
#[derive(Clone, Copy, Debug, PartialEq, Eq, Structural)]
pub struct Timestamp {
    pub nanos: i128,
}

impl Timestamp {
    /// The time `nanos` nanoseconds after the Unix epoch.
    pub fn from_nanos(nanos: i128) -> (t: Timestamp)
        ensures
            t.nanos == nanos,
    {
        Timestamp { nanos }
    }

    /// Whether `self` lies strictly after `other`.
    pub open spec fn is_after(self, other: Timestamp) -> bool {
        self.nanos > other.nanos
    }

    /// Decides whether `self` lies strictly after `other`.
    pub fn after(&self, other: &Timestamp) -> (b: bool)
        ensures
            b == self.is_after(*other),
    {
        self.nanos > other.nanos
    }
}

/// The modification time that goes on record when the metadata of a file
/// were asked for it.  Metadata that cannot tell the time are tolerated: the
/// time then counts as unknown.
pub open spec fn recorded(modified: Result<Timestamp, std::io::Error>) -> Option<Timestamp> {
    match modified {
        Ok(time) => Some(time),
        Err(_) => None,
    }
}

/// Computes [`recorded`].
pub fn record(modified: Result<Timestamp, std::io::Error>) -> (seen: Option<Timestamp>)
    ensures
        seen == recorded(modified),
{
    match modified {
        Ok(time) => Some(time),
        Err(_) => None,
    }
}

/// Whether a file last seen with modification time `known` must be read again
/// now that its modification time is reported as `seen`.  An unknown time on
/// either side always asks for a reload; otherwise only a strictly later time
/// does.
pub open spec fn stale(known: Option<Timestamp>, seen: Option<Timestamp>) -> bool {
    match (known, seen) {
        (Some(k), Some(s)) => s.is_after(k),
        _ => true,
    }
}

/// Decides [`stale`].
pub fn is_stale(known: Option<Timestamp>, seen: Option<Timestamp>) -> (b: bool)
    ensures
        b == stale(known, seen),
{
    match (known, seen) {
        (Some(k), Some(s)) => s.after(&k),
        _ => true,
    }
}

} // verus!
