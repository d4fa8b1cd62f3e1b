//! The time, as the venue wants it: milliseconds since the Unix epoch.

use crate::error::MintError;
use std::time::{Duration, SystemTime, SystemTimeError, UNIX_EPOCH};
use vstd::prelude::*;
use vstd::string::*;

verus! {

/// `std::time::SystemTime`, held as an opaque value.
#[verifier::external_type_specification]
#[verifier::external_body]
pub struct ExSystemTime(SystemTime);

/// `SystemTime::now`: the time of the system's clock. Nothing is claimed of it.
#[verifier::external_body]
fn now() -> (time: SystemTime) {
    SystemTime::now()
}

/// `SystemTime::duration_since`, with the Unix epoch as the earlier time: the time that
/// has passed since the epoch, or an error where `time` lies before it. Which of the two
/// is not claimed.
#[verifier::external_body]
fn since_epoch(time: &SystemTime) -> (passed: Result<Duration, SystemTimeError>) {
    time.duration_since(UNIX_EPOCH)
}

/// `Duration::as_millis`: the whole milliseconds of a duration. Nothing is claimed of the
/// number.
#[verifier::external_body]
fn as_millis(passed: &Duration) -> (ms: u128) {
    passed.as_millis()
}

/// The decimal digit for a number below ten.
pub open spec fn digit(d: nat) -> char {
    seq!['0', '1', '2', '3', '4', '5', '6', '7', '8', '9'][d as int]
}

/// The decimal text of a number: its digits, the most significant first, with no sign
/// and no leading zero.
pub open spec fn decimal_text(n: nat) -> Seq<char>
    decreases n,
{
    if n < 10 {
        seq![digit(n)]
    } else {
        decimal_text(n / 10).push(digit(n % 10))
    }
}

/// The text of the decimal digit for a number below ten.
fn digit_text(d: u128) -> (text: &'static str)
    requires
        d < 10,
    ensures
        text@ == seq![digit(d as nat)],
{
    proof {
        reveal_strlit("0");
        reveal_strlit("1");
        reveal_strlit("2");
        reveal_strlit("3");
        reveal_strlit("4");
        reveal_strlit("5");
        reveal_strlit("6");
        reveal_strlit("7");
        reveal_strlit("8");
        reveal_strlit("9");
    }
    let text = if d == 0 {
        "0"
    } else if d == 1 {
        "1"
    } else if d == 2 {
        "2"
    } else if d == 3 {
        "3"
    } else if d == 4 {
        "4"
    } else if d == 5 {
        "5"
    } else if d == 6 {
        "6"
    } else if d == 7 {
        "7"
    } else if d == 8 {
        "8"
    } else {
        "9"
    };
    assert(text@ =~= seq![digit(d as nat)]);
    text
}

/// The milliseconds that have passed since the Unix epoch, by the system's clock. A
/// clock that stands before the epoch is an error.
pub fn get_ms() -> (ms: Result<u128, MintError>)
    ensures
        ms matches Err(e) ==> e is SystemTimeError,
{
    let start = now();
    match since_epoch(&start) {
        Ok(since_the_epoch) => Ok(as_millis(&since_the_epoch)),
        Err(e) => Err(MintError::SystemTimeError(e)),
    }
}

/// The decimal text of a number of milliseconds.
pub fn ms_to_str(ms: u128) -> (text: String)
    ensures
        text@ == decimal_text(ms as nat),
    decreases ms,
{
    if ms < 10 {
        String::from_str(digit_text(ms))
    } else {
        let mut text = ms_to_str(ms / 10);
        text.append(digit_text(ms % 10));
        assert(text@ =~= decimal_text((ms / 10) as nat).push(digit((ms % 10) as nat)));
        text
    }
}

/// The milliseconds that have passed since the Unix epoch, as decimal text.
pub fn get_ms_str() -> (text: Result<String, MintError>)
    ensures
        text matches Ok(t) ==> exists|ms: u128| t@ == #[trigger] decimal_text(ms as nat),
        text matches Err(e) ==> e is SystemTimeError,
{
    match get_ms() {
        Ok(ms) => Ok(ms_to_str(ms)),
        Err(e) => Err(e),
    }
}

} // verus!
