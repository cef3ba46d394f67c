//! The system clock, read when a block carries no production time.

use std::time::{Duration, SystemTime};
use vstd::prelude::*;

verus! {

/// A reading of the system clock.
#[verifier::external_type_specification]
#[verifier::external_body]
pub struct ExSystemTime(SystemTime);

/// `SystemTime::now`. Nothing is claimed of the reading: it depends on the
/// machine's clock.
#[verifier::external_body]
pub(crate) fn now() -> SystemTime {
    SystemTime::now()
}

/// `SystemTime::duration_since(UNIX_EPOCH)`: the time elapsed since the Unix
/// epoch, and `None` where the reading lies before it. Nothing is claimed of
/// the value: it depends on the reading, of which nothing is known.
#[verifier::external_body]
pub(crate) fn since_unix_epoch(time: &SystemTime) -> Option<Duration> {
    match time.duration_since(std::time::UNIX_EPOCH) {
        Ok(elapsed) => Some(elapsed),
        Err(_) => None,
    }
}

/// `Duration::as_secs`: the whole seconds of a duration. Nothing is claimed
/// of the value, since nothing is known of the duration.
#[verifier::external_body]
pub(crate) fn whole_seconds(elapsed: &Duration) -> u64 {
    elapsed.as_secs()
}

} // verus!
