//! Points in time as plain numbers, and the reading of the wall clock.

use vstd::prelude::*;

verus! {

/// A point in time: whole seconds since the Unix epoch, and the nanoseconds
/// past that second.
#[derive(Debug, Clone, Copy, PartialEq, Eq, Structural)]
pub struct Timestamp {
    pub secs: i64,
    pub nanos: u32,
}

impl Timestamp {
    /// The nanoseconds stay below one second.
    pub open spec fn well_formed(self) -> bool {
        self.nanos < 1_000_000_000
    }

    /// The nanoseconds between the Unix epoch and this point in time.
    pub open spec fn nanos_since_epoch(self) -> int {
        self.secs * 1_000_000_000 + self.nanos
    }
}

/// The whole seconds that pass from `start` to `end`, at most `i64::MAX`; none
/// where `end` is not later than `start`.
pub open spec fn elapsed_seconds(start: Timestamp, end: Timestamp) -> int {
    let nanos: int = end.nanos_since_epoch() - start.nanos_since_epoch();
    if nanos <= 0 {
        0
    } else if nanos / 1_000_000_000 > i64::MAX {
        i64::MAX as int
    } else {
        nanos / 1_000_000_000
    }
}

/// The whole seconds from `start` to `end`. A clock that was set back between the
/// two readings counts as no time passed.
pub fn seconds_between(start: Timestamp, end: Timestamp) -> (seconds: i64)
    ensures
        seconds == elapsed_seconds(start, end),
        seconds >= 0,
{
    let from: i128 = (start.secs as i128) * 1_000_000_000 + (start.nanos as i128);
    let to: i128 = (end.secs as i128) * 1_000_000_000 + (end.nanos as i128);
    if to <= from {
        return 0;
    }
    let whole: i128 = (to - from) / 1_000_000_000;
    if whole > i64::MAX as i128 {
        i64::MAX
    } else {
        whole as i64
    }
}

/// Reads the wall clock through `chrono::Utc::now` and hands back its Unix
/// time stamp, split by `DateTime::timestamp` and
/// `DateTime::timestamp_subsec_nanos`. Nothing is promised of the time that is
/// read but that its nanoseconds stay below one second: `Utc::now` builds its
/// value from the fraction of a `std::time::Duration`. Like `Utc::now` itself this
/// does not return where the system clock stands before 1970.
#[verifier::external_body]
fn read_clock() -> (now: Timestamp)
    ensures
        now.well_formed(),
{
    let now = chrono::Utc::now();
    Timestamp { secs: now.timestamp(), nanos: now.timestamp_subsec_nanos() }
}

/// The current time.
pub fn now() -> (now: Timestamp)
    ensures
        now.well_formed(),
{
    read_clock()
}

} // verus!
