//! Trusted boundary to the monotonic clock.
//!
//! The frame-rate counter needs two things of the outside world: the
//! current instant, and the nanoseconds elapsed since a stored instant.
//! Nothing can be promised of either value — it depends on the machine's
//! clock — so neither wrapper carries an `ensures`.

use vstd::prelude::*;

verus! {

#[verifier::external_type_specification]
#[verifier::external_body]
pub struct ExInstant(std::time::Instant);

/// Relies on `std::time::Instant::now`.
#[verifier::external_body]
pub fn instant_now() -> (r: std::time::Instant) {
    std::time::Instant::now()
}

/// Relies on `std::time::Instant::elapsed`: the time since `t`, here
/// truncated to whole nanoseconds in a `u64`.
#[verifier::external_body]
pub fn elapsed_nanos(t: &std::time::Instant) -> (r: u64) {
    t.elapsed().as_nanos() as u64
}

} // verus!
