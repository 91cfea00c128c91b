//! The clock.

use vstd::prelude::*;
use std::time::Duration;
use std::time::SystemTime;
use std::time::SystemTimeError;

verus! {

#[verifier::external_type_specification]
#[verifier::external_body]
pub struct ExSystemTime(SystemTime);

#[verifier::external_type_specification]
#[verifier::external_body]
pub struct ExSystemTimeError(SystemTimeError);

/// `SystemTime::now`: the reading of the system clock. Nothing is claimed of
/// it.
#[verifier::external_body]
fn now() -> SystemTime {
    SystemTime::now()
}

/// `SystemTime::duration_since` with `UNIX_EPOCH` for the earlier time: how
/// long after the epoch `time` lies, or an error where it lies before.
/// Nothing is claimed of which.
#[verifier::external_body]
fn since_epoch(time: &SystemTime) -> Result<Duration, SystemTimeError> {
    time.duration_since(std::time::UNIX_EPOCH)
}

/// `Duration::as_secs`: the whole seconds of a duration. Nothing is claimed
/// of their number.
#[verifier::external_body]
fn whole_seconds(duration: &Duration) -> u64 {
    duration.as_secs()
}

/// The seconds since the Unix epoch by the system clock, or zero where the
/// clock stands before the epoch.
pub fn timestamp() -> (r: u64)
    ensures
        exists|time: SystemTime, elapsed: Result<Duration, SystemTimeError>|
            read_off(time, elapsed, r),
{
    let time = now();
    let elapsed = since_epoch(&time);
    let seconds = match &elapsed {
        Ok(duration) => whole_seconds(duration),
        Err(_) => 0,
    };
    assert(read_off(time, elapsed, seconds));
    seconds
}

/// Whether `seconds` is what the clock gives: `time` is a reading of the
/// clock and `elapsed` what lies between the epoch and it, and `seconds` are
/// the whole seconds of that, or zero where the reading lies before the
/// epoch.
pub closed spec fn read_off(
    time: SystemTime,
    elapsed: Result<Duration, SystemTimeError>,
    seconds: u64,
) -> bool {
    &&& call_ensures(now, (), time)
    &&& call_ensures(since_epoch, (&time,), elapsed)
    &&& match elapsed {
        Ok(duration) => call_ensures(whole_seconds, (&duration,), seconds),
        Err(_) => seconds == 0,
    }
}

/// A reading of the clock that lies before the epoch gives zero seconds.
pub proof fn lemma_before_epoch(
    time: SystemTime,
    elapsed: Result<Duration, SystemTimeError>,
    seconds: u64,
)
    requires
        read_off(time, elapsed, seconds),
        elapsed is Err,
    ensures
        seconds == 0,
{
}

} // verus!
