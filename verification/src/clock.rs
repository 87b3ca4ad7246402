//! The monotonic clock that times the decode loop.

use vstd::prelude::*;
use core::time::Duration;
use std::time::Instant;

verus! {

/// `std::time::Instant`, a reading of the monotonic clock. Nothing is known
/// of what it holds.
#[verifier::external_type_specification]
#[verifier::external_body]
pub struct ExInstant(std::time::Instant);

/// `std::time::Instant::now`. Trusted: it returns; nothing is claimed of the
/// reading.
pub assume_specification[ std::time::Instant::now ]() -> Instant;

/// `std::time::Instant::elapsed`. Trusted: it returns; nothing is claimed of
/// the time that has passed.
pub assume_specification[ std::time::Instant::elapsed ](start: &Instant) -> Duration;

/// `core::time::Duration::as_nanos`. Trusted: it returns; nothing is claimed
/// of the number.
pub assume_specification[ core::time::Duration::as_nanos ](span: &Duration) -> u128;

} // verus!
