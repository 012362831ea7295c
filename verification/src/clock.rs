//! The monotonic clock of the standard library, as far as the cache needs it.
//!
//! Nothing here is proved: these declarations say what the verified code may
//! assume of `std::time`.

use std::time::{Duration, Instant};
use vstd::prelude::*;

verus! {

/// `std::time::Instant`, a reading of the monotonic clock. Nothing is known
/// of what a value holds.
#[verifier::external_type_specification]
#[verifier::external_body]
pub struct ExInstant(std::time::Instant);

/// The whole length of a `Duration` in nanoseconds, as `Duration::as_nanos`
/// returns it.
pub uninterp spec fn duration_nanos(duration: Duration) -> u128;

/// `Duration::as_nanos` depends on the duration alone; its result is named
/// [`duration_nanos`].
pub assume_specification[ Duration::as_nanos ](duration: &Duration) -> (nanos: u128)
    ensures
        nanos == duration_nanos(*duration),
;

/// `Instant::now` reads the clock: nothing is promised of the instant.
pub assume_specification[ Instant::now ]() -> (now: Instant);

/// `Instant::saturating_duration_since` gives the time that passed from
/// `earlier` to `later`, or zero where `earlier` is the later one, and never
/// panics. Nothing is promised of the duration.
pub assume_specification[ Instant::saturating_duration_since ](
    later: &Instant,
    earlier: Instant,
) -> (passed: Duration);

} // verus!
