//! The timestamp source for telemetry records and chunk headers.
use vstd::prelude::*;

verus! {

/// Relies on `std::time::SystemTime::now`: a nanosecond timestamp read
/// from the system clock. The result depends on the clock alone, so
/// nothing is promised of it; callers treat it as an arbitrary stamp.
#[verifier::external_body]
pub fn monotonic_ns() -> u64 {
    match std::time::SystemTime::now().duration_since(std::time::UNIX_EPOCH) {
        Ok(d) => d.as_nanos() as u64,
        Err(_) => 0,
    }
}

} // verus!
