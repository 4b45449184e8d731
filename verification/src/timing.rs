//! Reading the clock, and keeping the measured work.
use vstd::prelude::*;

verus! {

/// `std::time::Instant`, a reading of a clock.
#[verifier::external_type_specification]
#[verifier::external_body]
pub struct ExInstant(std::time::Instant);

/// `std::hint::black_box`: the documentation calls it an identity function
/// that hints to the compiler to leave no work out. The contract claims that
/// the value comes back; nothing is said of the work.
pub assume_specification<T>[ std::hint::black_box::<T> ](dummy: T) -> (same: T)
    ensures
        same == dummy,
;

/// `std::time::Instant::now`. Nothing is claimed of the reading.
#[verifier::external_body]
pub(crate) fn clock() -> (now: std::time::Instant) {
    std::time::Instant::now()
}

/// `std::time::Instant::elapsed`. Nothing is claimed of the time.
#[verifier::external_body]
pub(crate) fn time_since(started: &std::time::Instant) -> (elapsed: std::time::Duration) {
    started.elapsed()
}

} // verus!
