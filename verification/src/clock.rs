//! The wall clock. The function here calls the `chrono` crate; its contract
//! is believed, not proved.

use vstd::prelude::*;

verus! {

/// Reads the current time with `chrono::Utc::now` and returns it in
/// microseconds since the Unix epoch (`DateTime::timestamp_micros`).
///
/// Believed of the outside function: the time it returns is not before the
/// epoch. It panics where the system clock is set before the epoch.
#[verifier::external_body]
pub(crate) fn now_micros() -> (now: i64)
    ensures
        now >= 0,
{
    chrono::Utc::now().timestamp_micros()
}

} // verus!
