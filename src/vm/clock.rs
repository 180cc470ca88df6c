//! The monotonic clock that paces CLOCK events, from the stopwatch crate.

use stopwatch::Stopwatch;
use vstd::prelude::*;

verus! {

/// Relies on stopwatch's `Stopwatch`, carried opaque through the machine.
#[verifier::external_type_specification]
#[verifier::external_body]
pub struct ExStopwatch(Stopwatch);

/// Relies on stopwatch's `Stopwatch::new`, which builds a stopped stopwatch.
pub assume_specification[ Stopwatch::new ]() -> Stopwatch;

/// Relies on stopwatch's `Stopwatch::start`, which records the current instant.
pub assume_specification[ Stopwatch::start ](sw: &mut Stopwatch);

/// Relies on stopwatch's `Stopwatch::restart`, which zeroes and starts it.
pub assume_specification[ Stopwatch::restart ](sw: &mut Stopwatch);

/// Relies on stopwatch's `Stopwatch::elapsed_ms`: a reading of the time,
/// of which nothing is promised here.
pub assume_specification[ Stopwatch::elapsed_ms ](sw: &Stopwatch) -> i64;

} // verus!
