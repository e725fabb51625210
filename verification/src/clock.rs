//! Trusted boundary to the wall clock.  Times travel through the
//! library as plain Unix timestamps, so every rule about them is
//! verified for any reading the clock may give.
use vstd::prelude::*;

verus! {

/// Relies on `chrono::Utc::now`: the current Unix time in seconds;
/// nothing is promised of the reading.
#[verifier::external_body]
pub fn unix_now_seconds() -> i64 {
    chrono::Utc::now().timestamp()
}

/// Relies on `chrono::Utc::now`: the current Unix time in milliseconds;
/// nothing is promised of the reading.
#[verifier::external_body]
pub fn unix_now_millis() -> i64 {
    chrono::Utc::now().timestamp_millis()
}

} // verus!
