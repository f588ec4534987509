//! Wall-clock timestamps in milliseconds since the Unix epoch.

use std::time::{Duration, SystemTime, SystemTimeError};
use vstd::prelude::*;

verus! {

#[verifier::external_type_specification]
#[verifier::external_body]
pub struct ExSystemTime(SystemTime);

#[verifier::external_type_specification]
#[verifier::external_body]
pub struct ExSystemTimeError(SystemTimeError);

/// Reads the system clock with `std::time::SystemTime::now`. The reading
/// depends on the moment of the call, so nothing is promised of it.
#[verifier::external_body]
fn system_time_now() -> (now: SystemTime) {
    SystemTime::now()
}

/// Calls `SystemTime::duration_since` with `std::time::UNIX_EPOCH`: the
/// time elapsed since the epoch, or an error for a clock set before it.
/// The outcome depends on the opaque clock reading, so nothing is promised.
#[verifier::external_body]
fn elapsed_since_unix_epoch(time: &SystemTime) -> (elapsed: Result<Duration, SystemTimeError>) {
    time.duration_since(std::time::UNIX_EPOCH)
}

/// Calls `Duration::as_millis`: the whole milliseconds of the duration.
/// A `Duration` is opaque here, so nothing is promised of the count.
#[verifier::external_body]
fn duration_as_millis(duration: &Duration) -> (millis: u128) {
    duration.as_millis()
}

/// Milliseconds since the Unix epoch as a `u64`: 0 when the clock reads a
/// time before the epoch, `u64::MAX` when the count does not fit. The
/// value comes from the system clock, so the contract states nothing of it;
/// [`millis_since_epoch`] is the verified mapping applied to the reading.
pub fn now_ms() -> u64 {
    let now = system_time_now();
    let elapsed = match elapsed_since_unix_epoch(&now) {
        Ok(duration) => Some(duration_as_millis(&duration)),
        Err(_) => None,
    };
    millis_since_epoch(elapsed)
}

/// The milliseconds since the epoch that a clock reading stands for:
/// `elapsed` is the whole milliseconds elapsed since the epoch, or none
/// for a clock set before it.
pub open spec fn epoch_millis(elapsed: Option<u128>) -> u64 {
    match elapsed {
        Some(millis) => saturated_millis(millis),
        None => 0,
    }
}

/// Maps a clock reading to milliseconds since the epoch: a reading before
/// the epoch gives 0, and a count that does not fit saturates at
/// `u64::MAX`.
pub fn millis_since_epoch(elapsed: Option<u128>) -> (ms: u64)
    ensures
        ms == epoch_millis(elapsed),
{
    match elapsed {
        Some(millis) => millis_to_u64(millis),
        None => 0,
    }
}

/// The millisecond count that a `u128` reading maps to when it is stored
/// in a `u64`: readings that do not fit saturate at `u64::MAX`.
pub open spec fn saturated_millis(millis: u128) -> u64 {
    if millis <= u64::MAX as u128 {
        millis as u64
    } else {
        u64::MAX
    }
}

/// Narrows a millisecond reading to `u64`, saturating at `u64::MAX`.
pub fn millis_to_u64(millis: u128) -> (ms: u64)
    ensures
        ms == saturated_millis(millis),
{
    if millis <= u64::MAX as u128 {
        millis as u64
    } else {
        u64::MAX
    }
}

} // verus!
