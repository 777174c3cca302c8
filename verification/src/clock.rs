//! The wall clock the iterative-deepening driver consults between depths.
//! Time readings are outside anything the engine can promise, so the
//! wrappers state nothing of the values; every decision taken on them is
//! verified for all possible readings.

use vstd::prelude::*;

verus! {

/// `std::time::Instant`, declared so a clock reading can be held and
/// passed around; the value is opaque.
#[verifier::external_type_specification]
#[verifier::external_body]
pub struct ExInstant(std::time::Instant);

/// Relies on `std::time::Instant::now` for a reading of the monotonic
/// clock.
#[verifier::external_body]
pub fn monotonic_now() -> (r: std::time::Instant) {
    std::time::Instant::now()
}

/// Relies on `std::time::Instant::elapsed`, reduced to whole milliseconds.
#[verifier::external_body]
pub fn elapsed_ms(start: &std::time::Instant) -> (r: u64) {
    start.elapsed().as_millis() as u64
}

} // verus!
