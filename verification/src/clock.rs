//! Access to the wall clock. Every time-dependent decision of the library is
//! written as a verified function that takes the current time as an argument;
//! the functions here only read the clock.

use vstd::prelude::*;

verus! {

/// Milliseconds since the Unix epoch, read from `chrono::Utc::now()`.
///
/// The result depends on the machine's clock, so nothing is promised of it.
#[verifier::external_body]
pub(crate) fn now_millis() -> (ms: u64) {
    chrono::Utc::now().timestamp_millis() as u64
}

/// Seconds since the Unix epoch, derived from `now_millis`.
pub(crate) fn now_secs() -> (s: u64) {
    now_millis() / 1000
}

} // verus!
