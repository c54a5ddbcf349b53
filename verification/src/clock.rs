//! The one clock reading the library takes from outside.

use vstd::prelude::*;

verus! {

/// Relies on std's `SystemTime::now` and `SystemTime::duration_since`:
/// seconds of the system clock relative to the unix epoch, negative when
/// the clock is set before it. Both arms of `duration_since` are handled
/// and the conversions saturate, so the reading is taken without a
/// panicking path. Nothing is promised of a clock reading; callers state
/// what holds of whatever came back.
#[verifier::external_body]
pub fn now_unix() -> i64 {
    match std::time::SystemTime::now().duration_since(std::time::UNIX_EPOCH) {
        Ok(since) => i64::try_from(since.as_secs()).unwrap_or(i64::MAX),
        Err(before) => -i64::try_from(before.duration().as_secs()).unwrap_or(i64::MAX),
    }
}

} // verus!
