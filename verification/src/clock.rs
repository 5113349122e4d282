//! The wall clock, behind a trusted wrapper.

use vstd::prelude::*;

verus! {

/// Relies on chrono::Utc::now and DateTime::timestamp: the current time
/// as whole seconds since the Unix epoch. Utc::now does not return on a
/// machine whose clock reads before the epoch, so the count is never
/// negative, and chrono represents dates within roughly two hundred and
/// sixty thousand years, so it stays far below ten to the thirteenth.
#[verifier::external_body]
pub fn now_ts() -> (r: i64)
    ensures
        0 <= r < 10_000_000_000_000,
{
    chrono::Utc::now().timestamp()
}

} // verus!
