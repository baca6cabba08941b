//! The wall clock.

use vstd::prelude::*;

verus! {

/// Seconds since the Unix epoch, read from the system clock through
/// `time::now_utc().to_timespec()`.
///
/// Trusted. The value depends on when the call is made, so nothing is
/// promised about it: callers are verified for every `i64`.
#[verifier::external_body]
pub(crate) fn now_seconds() -> i64 {
    time::now_utc().to_timespec().sec
}

} // verus!
