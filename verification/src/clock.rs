//! The wall clock, read through std.

use std::time::{Duration, SystemTime};
use vstd::prelude::*;

verus! {

#[verifier::external_type_specification]
#[verifier::external_body]
pub struct ExSystemTime(SystemTime);

/// `SystemTime::now`: the current time; nothing is claimed of it.
#[verifier::external_body]
pub(crate) fn system_now() -> SystemTime {
    SystemTime::now()
}

/// `SystemTime::duration_since(UNIX_EPOCH)`: the time elapsed since the epoch,
/// `None` when the clock reads earlier than the epoch; nothing more is claimed.
#[verifier::external_body]
pub(crate) fn elapsed_since_unix_epoch(time: &SystemTime) -> Option<Duration> {
    time.duration_since(std::time::UNIX_EPOCH).ok()
}

/// `Duration::as_millis`: whole milliseconds of a duration; the duration is
/// opaque here, so nothing is claimed of the number.
#[verifier::external_body]
pub(crate) fn duration_millis(duration: &Duration) -> u128 {
    duration.as_millis()
}

} // verus!
