//! The wall clock as a millisecond timestamp.

use std::time::{Duration, SystemTime, SystemTimeError, UNIX_EPOCH};
use vstd::prelude::*;

verus! {

#[verifier::external_type_specification]
#[verifier::external_body]
pub struct ExSystemTime(std::time::SystemTime);

#[verifier::external_type_specification]
#[verifier::external_body]
pub struct ExSystemTimeError(std::time::SystemTimeError);

/// Reads the system clock with `SystemTime::now`. Nothing is claimed of the
/// reading.
#[verifier::external_body]
fn read_system_clock() -> SystemTime {
    SystemTime::now()
}

/// Measures a clock reading against the epoch with
/// `SystemTime::duration_since`, which fails for a clock set before the
/// epoch. Nothing is claimed of the outcome.
#[verifier::external_body]
fn since_epoch(reading: &SystemTime) -> Result<Duration, SystemTimeError> {
    reading.duration_since(UNIX_EPOCH)
}

/// The whole milliseconds of a duration, by `Duration::as_millis`. Nothing is
/// claimed of the number.
#[verifier::external_body]
fn whole_millis(d: &Duration) -> u128 {
    d.as_millis()
}

/// The timestamp of a clock that stands `since_epoch` whole milliseconds
/// after the epoch. There is none where the clock stands before the epoch,
/// so that there is no count, or where the count does not fit a timestamp.
pub open spec fn timestamp_of(since_epoch: Option<u128>) -> Option<i64> {
    match since_epoch {
        Some(millis) => if millis <= i64::MAX { Some(millis as i64) } else { None },
        None => None,
    }
}

/// Turns what the clock gave, measured against the epoch, into a timestamp.
pub fn timestamp_from_millis(since_epoch: Option<u128>) -> (ts: Option<i64>)
    ensures
        ts == timestamp_of(since_epoch),
{
    match since_epoch {
        Some(millis) => if millis <= 0x7fff_ffff_ffff_ffff { Some(millis as i64) } else { None },
        None => None,
    }
}

/// The current time in milliseconds since the epoch.
///
/// There is none where the clock is set before the epoch, or so far after it
/// that the milliseconds do not fit a timestamp.
pub fn now_ms() -> (ts: Option<i64>)
    ensures
        ts matches Some(t) ==> t >= 0,
{
    let reading: SystemTime = read_system_clock();
    let elapsed: Option<u128> = match since_epoch(&reading) {
        Ok(d) => Some(whole_millis(&d)),
        Err(_) => None,
    };
    timestamp_from_millis(elapsed)
}

} // verus!
