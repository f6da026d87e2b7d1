//! The current time, read from the system clock through `chrono`.

use vstd::prelude::*;

verus! {

/// A point in time in UTC: whole seconds since the Unix epoch and the
/// nanoseconds past that second (above 999,999,999 only during a leap second).
#[derive(Debug, PartialEq, Eq)]
pub struct Timestamp {
    pub secs: i64,
    pub nanos: u32,
}

/// Calls `chrono::Utc::now()` and hands back its seconds
/// (`DateTime::timestamp`) and nanoseconds (`DateTime::timestamp_subsec_nanos`),
/// from which `DateTime::from_timestamp` rebuilds it exactly. The time is the
/// machine's, so the contract claims only what the crate's source shows of
/// every outcome: it reads `SystemTime::now()` since the Unix epoch, so the
/// seconds are not negative and the nanoseconds are those of a non-leap
/// second. The call panics when the system clock is set before the epoch.
#[verifier::external_body]
pub(crate) fn now() -> (t: Timestamp)
    ensures
        t.secs >= 0,
        t.nanos < 1_000_000_000,
{
    let now = chrono::Utc::now();
    Timestamp { secs: now.timestamp(), nanos: now.timestamp_subsec_nanos() }
}

} // verus!
