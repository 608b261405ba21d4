//! The clocks: the wall clock (`SystemTime`) and durations read from it
//! and from the monotonic clock.

use std::time::{Duration, SystemTime};
use vstd::prelude::*;

verus! {

#[verifier::external_type_specification]
#[verifier::external_body]
pub struct ExSystemTime(SystemTime);

/// `SystemTime::now`: the current wall-clock time.
#[verifier::external_body]
fn system_now() -> SystemTime {
    SystemTime::now()
}

/// `SystemTime::duration_since(UNIX_EPOCH)`; `None` for a time before the
/// epoch. The value depends on the moment of the reading, so nothing is
/// stated of it.
#[verifier::external_body]
fn since_epoch(t: &SystemTime) -> Option<Duration> {
    t.duration_since(std::time::UNIX_EPOCH).ok()
}

/// `Duration::as_secs`: the whole seconds of a duration. Durations are
/// only ever read from the clocks here, so nothing is stated of the value.
#[verifier::external_body]
pub(crate) fn whole_secs(d: &Duration) -> u64 {
    d.as_secs()
}

/// `Duration::as_nanos`: the nanoseconds of a duration (see `whole_secs`).
#[verifier::external_body]
pub(crate) fn total_nanos(d: &Duration) -> u128 {
    d.as_nanos()
}

/// Seconds since the Unix epoch, now; zero when the clock is set before
/// the epoch.
pub fn unix_now_secs() -> u64 {
    let t = system_now();
    match since_epoch(&t) {
        Some(d) => whole_secs(&d),
        None => 0,
    }
}

/// Seconds since the Unix epoch, now, as the signed timestamp stored with
/// records (`as i64`).
pub fn unix_now_i64() -> i64 {
    let s = unix_now_secs();
    #[verifier::truncate]
    (s as i64)
}

} // verus!
