//! The time of day.

use vstd::prelude::*;

verus! {

/// `std::time::SystemTime`, a moment by the clock of the machine.
#[verifier::external_type_specification]
#[verifier::external_body]
pub struct MomentType(std::time::SystemTime);

/// `std::time::SystemTime::now` reads the clock; nothing is claimed of what it
/// shows.
pub assume_specification[ std::time::SystemTime::now ]() -> std::time::SystemTime;

/// `std::time::SystemTime::duration_since`, counted from the Unix epoch: none
/// if the moment lies before it. Nothing is claimed of the time that passed.
#[verifier::external_body]
fn since_epoch(moment: std::time::SystemTime) -> (elapsed: Option<std::time::Duration>) {
    moment.duration_since(std::time::UNIX_EPOCH).ok()
}

/// `std::time::Duration::as_secs` counts whole seconds; nothing is claimed of
/// the number.
pub assume_specification[ std::time::Duration::as_secs ](elapsed: &std::time::Duration) -> u64;

/// The seconds since the Unix epoch as a signed number; zero for a moment
/// before it. A number that does not fit wraps around.
pub fn unix_seconds(elapsed: Option<u64>) -> (seconds: i64)
    ensures
        seconds == match elapsed {
            Some(elapsed) => elapsed as i64,
            None => 0,
        },
        elapsed matches Some(counted) ==> counted <= i64::MAX ==> seconds == counted,
{
    match elapsed {
        Some(elapsed) => {
            #[verifier::truncate]
            (elapsed as i64)
        },
        None => 0,
    }
}

/// Whether `seconds` is the count for `moment`: the whole seconds that
/// `duration_since` and `as_secs` give for it, counted from the Unix epoch, and
/// zero if the moment lies before it.
pub closed spec fn is_count_of(moment: std::time::SystemTime, seconds: i64) -> bool {
    exists|elapsed: Option<std::time::Duration>| #[trigger]
        call_ensures(since_epoch, (moment,), elapsed) && match elapsed {
            Some(elapsed) => exists|counted: u64| #[trigger]
                call_ensures(std::time::Duration::as_secs, (&elapsed,), counted) && seconds
                    == counted as i64,
            None => seconds == 0,
        }
}

/// The seconds since the Unix epoch by the clock of the machine: the count for
/// a moment that `SystemTime::now` gave.
pub fn now_unix() -> (seconds: i64)
    ensures
        exists|moment: std::time::SystemTime| #[trigger]
            call_ensures(std::time::SystemTime::now, (), moment) && is_count_of(moment, seconds),
{
    let moment = std::time::SystemTime::now();
    let seconds: i64 = match since_epoch(moment) {
        Some(elapsed) => unix_seconds(Some(elapsed.as_secs())),
        None => unix_seconds(None),
    };
    assert(is_count_of(moment, seconds));
    seconds
}

} // verus!
