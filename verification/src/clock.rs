//! A monotonic clock, read in milliseconds since a starting point.
use vstd::prelude::*;

verus! {

/// `std::time::Instant`, a reading of the monotonic clock.
#[verifier::external_type_specification]
#[verifier::external_body]
pub struct ExInstant(std::time::Instant);

/// The current reading of the monotonic clock (`Instant::now`).
///
/// Nothing is stated of the value: it depends on the time of the call.
#[verifier::external_body]
pub(crate) fn clock_start() -> std::time::Instant {
    std::time::Instant::now()
}

/// Milliseconds elapsed since `start` (`Instant::elapsed`, then
/// `Duration::as_millis` cast to `u64`).
///
/// Nothing is stated of the value: it depends on the time of the call. The
/// clock is monotonic, so a later call never reads less, but no contract here
/// relates two calls.
#[verifier::external_body]
pub(crate) fn elapsed_ms(start: &std::time::Instant) -> u64 {
    start.elapsed().as_millis() as u64
}

} // verus!
