use std::time::Duration;
use std::time::SystemTime;
use std::time::SystemTimeError;
use vstd::prelude::*;

verus! {

/// `std::time::SystemTime`, a reading of the system clock; carried through,
/// never looked into.
#[verifier::external_type_specification]
#[verifier::external_body]
pub struct ExSystemTime(SystemTime);

/// `std::time::SystemTimeError`, what `SystemTime::duration_since` answers
/// where the second time is the later one; carried through, never looked into.
#[verifier::external_type_specification]
#[verifier::external_body]
pub struct ExSystemTimeError(SystemTimeError);

/// `SystemTime::now` reads the clock. Nothing is claimed of the reading.
pub assume_specification[ SystemTime::now ]() -> (now: SystemTime)
;

/// `SystemTime::duration_since` measures from `earlier` to `time`. Nothing is
/// claimed of the answer.
pub assume_specification[ SystemTime::duration_since ](
    time: &SystemTime,
    earlier: SystemTime,
) -> (elapsed: Result<Duration, SystemTimeError>)
;

/// `Duration::as_secs` gives the whole seconds of a duration. Nothing is
/// claimed of the number.
pub assume_specification[ Duration::as_secs ](duration: &Duration) -> (secs: u64)
;

/// The constant `std::time::UNIX_EPOCH`, handed out as a value.
#[verifier::external_body]
fn unix_epoch() -> (epoch: SystemTime) {
    std::time::UNIX_EPOCH
}

/// The whole seconds from the Unix epoch to now, or `None` where the clock
/// stands before the epoch.
pub(crate) fn seconds_since_epoch() -> (secs: Option<u64>) {
    let now = SystemTime::now();
    match now.duration_since(unix_epoch()) {
        Ok(elapsed) => Some(elapsed.as_secs()),
        Err(_) => None,
    }
}

} // verus!
