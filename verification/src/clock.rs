//! The clock, as far as the engine needs it: to time its steps and to date its
//! notifications. Nothing here says what time it is.

use std::time::{Duration, Instant, SystemTime};
use vstd::prelude::*;

verus! {

/// `std::time::Instant`, a reading of the monotonic clock. Its value is not known
/// here.
#[verifier::external_type_specification]
#[verifier::external_body]
pub struct ExInstant(Instant);

/// `std::time::SystemTime`, a reading of the system clock. Its value is not known
/// here.
#[verifier::external_type_specification]
#[verifier::external_body]
pub struct ExSystemTime(SystemTime);

/// `Instant::now` returns a reading of the monotonic clock; nothing is claimed of it.
pub assume_specification[ Instant::now ]() -> Instant;

/// `Instant::elapsed` returns the time since the reading was taken; nothing is
/// claimed of it.
pub assume_specification[ Instant::elapsed ](start: &Instant) -> Duration;

/// `SystemTime::now` returns a reading of the system clock; nothing is claimed of it.
pub assume_specification[ SystemTime::now ]() -> SystemTime;

} // verus!
