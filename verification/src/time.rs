//! The producer clock.

use vstd::prelude::*;

verus! {

/// Relies on `std::time::SystemTime::now` and
/// `SystemTime::duration_since`: the current time as nanoseconds since
/// the Unix epoch.  A clock before the epoch is a programmer error and
/// panics — the only panic in the core.
#[verifier::external_body]
pub fn now_time_ns() -> (r: i64) {
    std::time::SystemTime::now()
        .duration_since(std::time::UNIX_EPOCH)
        .expect("Time went backwards")
        .as_nanos() as i64
}

} // verus!
