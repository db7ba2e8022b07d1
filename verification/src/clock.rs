//! The wall clock, and the text of a point in time.
use chrono::{TimeZone, Utc};
use std::time::{Duration, SystemTime, SystemTimeError, UNIX_EPOCH};
use vstd::prelude::*;

verus! {

#[verifier::external_type_specification]
#[verifier::external_body]
pub struct ExSystemTime(SystemTime);

#[verifier::external_type_specification]
#[verifier::external_body]
pub struct ExSystemTimeError(SystemTimeError);

/// `SystemTime::now` reads the system clock. Nothing is known of the value.
pub assume_specification[ SystemTime::now ]() -> (now: SystemTime);

/// `SystemTime::duration_since` gives the time from `earlier` to `time`, or an
/// error where `earlier` is the later of the two. Nothing is claimed of
/// either.
pub assume_specification[ SystemTime::duration_since ](
    time: &SystemTime,
    earlier: SystemTime,
) -> (elapsed: Result<Duration, SystemTimeError>);

/// `Duration::as_millis` gives a duration in whole milliseconds. Nothing is
/// claimed of the number.
pub assume_specification[ Duration::as_millis ](duration: &Duration) -> (millis: u128);

/// The constant `std::time::UNIX_EPOCH`.
#[verifier::external_body]
fn unix_epoch() -> (epoch: SystemTime) {
    UNIX_EPOCH
}

/// The pattern of `format_timestamp_ms`: day, month and two-digit year, then
/// the time of day with milliseconds.
pub const TIMESTAMP_PATTERN: &'static str = "%d/%m/%y %H:%M:%S%.3f";

/// The text that `chrono` writes, under `pattern`, for the instant `millis`
/// milliseconds after the epoch, in UTC; nothing where `chrono` has no such
/// instant.
pub uninterp spec fn utc_text(millis: i64, pattern: Seq<char>) -> Option<Seq<char>>;

/// Asks `chrono` for the UTC instant `millis` milliseconds after the epoch
/// (`TimeZone::timestamp_millis_opt`) and has it written under `pattern`
/// (`DateTime::format`). The result is `None` where `chrono` has no such
/// instant. Nothing is proved of the text: the contract only names it. Only
/// the one pattern of this library is admitted, since writing fails on a
/// pattern that `chrono` cannot read.
#[verifier::external_body]
fn format_utc_millis(millis: i64, pattern: &str) -> (out: Option<String>)
    requires
        pattern@ == TIMESTAMP_PATTERN@,
    ensures
        match out {
            Some(text) => utc_text(millis, pattern@) == Some(text@),
            None => utc_text(millis, pattern@) is None,
        },
{
    let instant = Utc.timestamp_millis_opt(millis).single()?;
    Some(instant.format(pattern).to_string())
}

/// What `format_timestamp_ms` gives: the text of the instant, or nothing
/// where the number of milliseconds is beyond what a signed 64-bit number
/// holds.
pub open spec fn timestamp_text(epoch_ms: u128) -> Option<Seq<char>> {
    if epoch_ms <= i64::MAX as u128 {
        utc_text(epoch_ms as i64, TIMESTAMP_PATTERN@)
    } else {
        None
    }
}

/// The present time in milliseconds since the Unix epoch, or `None` where
/// the system clock stands before the epoch.
pub fn get_timestamp() -> Option<u128> {
    match SystemTime::now().duration_since(unix_epoch()) {
        Ok(elapsed) => Some(elapsed.as_millis()),
        Err(_) => None,
    }
}

/// Writes a time given in milliseconds since the Unix epoch as
/// `DD/MM/YY HH:MM:SS.mmm`, in UTC.
pub fn format_timestamp_ms(epoch_ms: u128) -> (out: Option<String>)
    ensures
        match out {
            Some(text) => timestamp_text(epoch_ms) == Some(text@),
            None => timestamp_text(epoch_ms) is None,
        },
{
    if epoch_ms > i64::MAX as u128 {
        return None;
    }
    format_utc_millis(epoch_ms as i64, TIMESTAMP_PATTERN)
}

} // verus!
