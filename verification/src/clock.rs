//! The time of day, in milliseconds since the Unix epoch.

use vstd::prelude::*;

verus! {

/// Reads the system clock with `chrono::Utc::now` and gives the time in
/// milliseconds since the Unix epoch, which is never negative: the call does
/// not return for a clock that stands before the epoch. What the clock says is
/// the machine's business; two readings need not even be in order.
#[verifier::external_body]
pub(crate) fn now_millis() -> (now: i64)
    ensures
        now >= 0,
{
    chrono::Utc::now().timestamp_millis()
}

} // verus!
