use std::time::Duration;
use std::time::SystemTime;
use std::time::SystemTimeError;
use std::time::UNIX_EPOCH;
use vstd::prelude::*;

use crate::errors::ChainError;

verus! {

/// A reading of the system clock, carried through unread.
#[verifier::external_type_specification]
#[verifier::external_body]
pub struct ExSystemTime(SystemTime);

/// The error of a clock that reads earlier than the time asked about,
/// carried through unread.
#[verifier::external_type_specification]
#[verifier::external_body]
pub struct ExSystemTimeError(SystemTimeError);

/// Calls `SystemTime::now`. Nothing is said of the time read.
#[verifier::external_body]
pub(crate) fn system_now() -> (r: SystemTime) {
    SystemTime::now()
}

/// Calls `SystemTime::duration_since` with the epoch as the earlier time.
/// Nothing is said of the outcome.
#[verifier::external_body]
pub(crate) fn since_epoch(t: &SystemTime) -> (r: Result<Duration, SystemTimeError>) {
    t.duration_since(UNIX_EPOCH)
}

/// Calls `Duration::as_millis`. Nothing is said of the number.
#[verifier::external_body]
pub(crate) fn whole_millis(d: &Duration) -> (r: u128) {
    d.as_millis()
}

/// The timestamp that a reading of the clock against the epoch stands for:
/// the whole milliseconds of the time since the epoch, or `Clock` where the
/// clock read earlier than the epoch.
pub fn millis_since_epoch(reading: Result<Duration, SystemTimeError>) -> (r: Result<
    u128,
    ChainError,
>)
    ensures
        reading is Ok ==> r is Ok,
        reading is Err ==> r == Err::<u128, ChainError>(ChainError::Clock),
{
    match reading {
        Ok(d) => Ok(whole_millis(&d)),
        Err(_) => Err(ChainError::Clock),
    }
}

/// Milliseconds since the epoch, as the system clock reads now; `Clock` when
/// the clock reads earlier than the epoch.
pub fn current_millis() -> (r: Result<u128, ChainError>)
    ensures
        r matches Err(e) ==> e == ChainError::Clock,
{
    let now = system_now();
    millis_since_epoch(since_epoch(&now))
}

} // verus!
