//! The wall clock, read in microseconds.

use std::time::Duration;
use std::time::SystemTime;
use std::time::SystemTimeError;
use vstd::prelude::*;

verus! {

/// `std::time::SystemTime`, a reading of the system clock.
#[verifier::external_type_specification]
#[verifier::external_body]
pub struct ExSystemTime(SystemTime);

/// `std::time::SystemTimeError`, the error of a clock that reads before the
/// moment it is compared with.
#[verifier::external_type_specification]
#[verifier::external_body]
pub struct ExSystemTimeError(SystemTimeError);

/// `SystemTime::now` reads the system clock. Nothing is claimed of the
/// reading: it may differ from call to call and may go backwards.
pub assume_specification[ SystemTime::now ]() -> (now: SystemTime);

/// `Duration::as_micros` gives the whole microseconds of a duration. Nothing
/// is claimed of the number.
pub assume_specification[ Duration::as_micros ](duration: &Duration) -> (micros: u128);

/// `SystemTime::duration_since`, measured from `UNIX_EPOCH`: the time from
/// the epoch to `time`, or an error where `time` lies before the epoch.
/// Nothing is claimed of which of the two comes back.
#[verifier::external_body]
fn since_epoch(time: &SystemTime) -> (passed: Result<Duration, SystemTimeError>) {
    time.duration_since(std::time::UNIX_EPOCH)
}

/// The microseconds between the epoch and now, as the system clock has it:
/// the [`reading`] of what the clock gave, which no contract can foretell.
pub fn clock_micros() -> u128 {
    let now = SystemTime::now();
    let passed = match since_epoch(&now) {
        Ok(passed) => Some(passed.as_micros()),
        Err(_) => None,
    };
    reading_micros(passed)
}

/// What a clock reads, in microseconds: the time `passed` since the epoch,
/// and zero for a clock that is set before the epoch and so has none.
pub open spec fn reading(passed: Option<u128>) -> u128 {
    match passed {
        Some(micros) => micros,
        None => 0,
    }
}

/// Computes [`reading`].
pub fn reading_micros(passed: Option<u128>) -> (micros: u128)
    ensures
        micros == reading(passed),
{
    match passed {
        Some(micros) => micros,
        None => 0,
    }
}

} // verus!
