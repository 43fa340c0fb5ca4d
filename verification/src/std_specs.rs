//! Specifications of the standard-library items that this crate calls and
//! that `vstd` leaves without one. Verus takes these on trust; each states no
//! more than the documentation of the item it names.

use vstd::prelude::*;
use std::time::{Duration, SystemTime, SystemTimeError, UNIX_EPOCH};

verus! {

/// `String::push` appends the character `ch` to the end of the string `s`.
pub assume_specification[ String::push ](s: &mut String, ch: char)
    ensures
        final(s)@ == old(s)@.push(ch),
;

/// `String::pop` removes the last character of the string `s` and returns it,
/// and returns `None` for an empty string, which it leaves as it is.
pub assume_specification[ String::pop ](s: &mut String) -> (last: Option<char>)
    ensures
        old(s)@.len() == 0 ==> last is None && final(s)@ == old(s)@,
        old(s)@.len() > 0 ==> last == Some(old(s)@.last()) && final(s)@ == old(s)@.drop_last(),
;

/// `std::time::SystemTime`, a reading of the system clock. Nothing of its
/// content is visible to the verifier.
#[verifier::external_type_specification]
#[verifier::external_body]
pub struct ExSystemTime(SystemTime);

/// `std::time::SystemTimeError`, the error of `SystemTime::duration_since`.
/// Nothing of its content is visible to the verifier.
#[verifier::external_type_specification]
#[verifier::external_body]
pub struct ExSystemTimeError(SystemTimeError);

/// `SystemTime::now` reads the system clock. Nothing is claimed of the reading.
pub assume_specification[ SystemTime::now ]() -> (now: SystemTime);

/// `Duration::as_secs` gives the whole seconds of `duration`. Nothing is
/// claimed of their number.
pub assume_specification[ Duration::as_secs ](duration: &Duration) -> (secs: u64);

/// Calls `SystemTime::duration_since` on `time` with `UNIX_EPOCH` as the
/// earlier instant: the time elapsed from the Unix epoch to `time`, or an
/// error where `time` lies before the epoch. Nothing is claimed of the result.
#[verifier::external_body]
pub(crate) fn since_unix_epoch(time: &SystemTime) -> (elapsed: Result<Duration, SystemTimeError>) {
    time.duration_since(UNIX_EPOCH)
}

} // verus!
