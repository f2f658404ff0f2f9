use std::time::{Duration, SystemTime, UNIX_EPOCH};

use vstd::prelude::*;

verus! {

#[verifier::external_type_specification]
#[verifier::external_body]
pub struct ExSystemTime(std::time::SystemTime);

/// Calls `SystemTime::now`: the time of the system clock, of which nothing
/// is known here.
#[verifier::external_body]
fn system_now() -> SystemTime {
    SystemTime::now()
}

/// Calls `SystemTime::duration_since` against the Unix epoch: the time
/// since the epoch, none when the clock is set before it.
#[verifier::external_body]
fn since_unix_epoch(t: SystemTime) -> Option<Duration> {
    t.duration_since(UNIX_EPOCH).ok()
}

/// Calls `Duration::as_secs`: the whole seconds of a duration.
#[verifier::external_body]
fn whole_secs(d: &Duration) -> u64 {
    d.as_secs()
}

/// The time elapsed since the Unix epoch, by the system clock; none when
/// the clock is set before the epoch. The result rests on the clock alone,
/// so no clause is stated of it: every value is a possible reading.
pub fn get_epoch() -> Option<Duration> {
    since_unix_epoch(system_now())
}

/// The current time in whole seconds since the Unix epoch, by the system
/// clock; none when the clock is set before the epoch. The result rests on
/// the clock alone, so no clause is stated of it: every value is a possible
/// reading.
pub fn timestamp_in_secs() -> Option<u64> {
    match get_epoch() {
        Some(d) => Some(whole_secs(&d)),
        None => None,
    }
}

} // verus!
