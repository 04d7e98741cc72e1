//! The wall clock, in milliseconds since the Unix epoch.
//!
//! Nothing is known of what the clock reads: the code that uses it is
//! proved for every reading.

use std::time::{Duration, SystemTime, SystemTimeError, UNIX_EPOCH};
use vstd::prelude::*;

verus! {

/// `std::time::SystemTime`, a reading of the system clock, carried through
/// as it is.
#[verifier::external_type_specification]
#[verifier::external_body]
pub struct ExSystemTime(SystemTime);

/// `std::time::SystemTimeError`, what `SystemTime::duration_since` returns
/// where the later reading is the earlier one.
#[verifier::external_type_specification]
#[verifier::external_body]
pub struct ExSystemTimeError(SystemTimeError);

/// `SystemTime::now`: the system clock's present reading. Nothing is claimed
/// of it.
#[verifier::external_body]
fn system_now() -> (now: SystemTime) {
    SystemTime::now()
}

/// `SystemTime::duration_since`, from the Unix epoch: the time that lies
/// between the Unix epoch and `instant`, or an error where `instant` is
/// before it. Nothing is claimed of which it is.
#[verifier::external_body]
fn since_unix_epoch(instant: &SystemTime) -> (elapsed: Result<Duration, SystemTimeError>) {
    instant.duration_since(UNIX_EPOCH)
}

/// `Duration::as_millis`: the whole milliseconds in `span`. Nothing is
/// claimed of their number.
#[verifier::external_body]
fn whole_millis(span: &Duration) -> (millis: u128) {
    span.as_millis()
}

/// Reads the clock: the milliseconds since the Unix epoch, cut to 64 bits,
/// or `None` where the clock stands before the Unix epoch.
pub(crate) fn unix_millis() -> (millis: Option<u64>) {
    let now = system_now();
    match since_unix_epoch(&now) {
        Ok(elapsed) => {
            let millis = whole_millis(&elapsed);
            Some(#[verifier::truncate] (millis as u64))
        },
        Err(_) => None,
    }
}

} // verus!
