//! The wall clock, in milliseconds since the Unix epoch.

use vstd::prelude::*;

verus! {

/// Calls `std::time::SystemTime::now` and hands back the milliseconds that
/// have passed since the Unix epoch, zero where the clock stands before it.
/// Nothing is promised of the value: two calls may give any two numbers.
#[verifier::external_body]
pub(crate) fn unix_time_millis() -> u64 {
    match std::time::SystemTime::now().duration_since(std::time::UNIX_EPOCH) {
        Ok(elapsed) => elapsed.as_millis() as u64,
        Err(_) => 0,
    }
}

} // verus!
