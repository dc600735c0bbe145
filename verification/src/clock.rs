//! The current time.
use vstd::prelude::*;
use crate::timespan::Timestamp;

verus! {

/// Reads the clock with `chrono::Utc::now` and hands back the instant as
/// whole seconds since the Unix epoch (`DateTime::timestamp`) and the
/// nanoseconds within the second (`DateTime::timestamp_subsec_nanos`). What
/// it reads depends on when it is called; the contract claims only what
/// holds of every reading: chrono builds the instant from the time elapsed
/// since the epoch, so the seconds are not negative and the nanoseconds stay
/// below one second. (chrono panics when the system clock is set before the
/// epoch; no argument can rule that out.)
#[verifier::external_body]
pub(crate) fn now() -> (t: Timestamp)
    ensures
        t.wf(),
        t.secs >= 0,
{
    let n = chrono::Utc::now();
    Timestamp { secs: n.timestamp(), nanos: n.timestamp_subsec_nanos() }
}

} // verus!
