//! Calendar days and the timestamps of their midnights, in UTC.

use vstd::prelude::*;
use vstd::string::StringExecFns;
use crate::error::AuditError;

verus! {

/// The timestamp of midnight, UTC, of the day that `text` names when read by
/// `format`; none where `text` names no day that way.
pub uninterp spec fn midnight_of(text: Seq<char>, format: Seq<char>) -> Option<i64>;

/// The UTC day of a timestamp, written by `format`; none where the timestamp
/// lies outside the years that can be written, or the format cannot be used.
pub uninterp spec fn day_of(seconds: i64, format: Seq<char>) -> Option<Seq<char>>;

/// The format of a calendar day: year, month and day of the month.
pub open spec fn day_format() -> Seq<char> {
    "%Y-%m-%d"@
}

/// The day that is shown for a timestamp that has no day.
pub open spec fn epoch_day() -> Seq<char> {
    "1970-01-01"@
}

/// Reads a day with `chrono::NaiveDate::parse_from_str` and gives the
/// timestamp of its midnight in UTC (`and_time`, `and_utc`, `timestamp`), or
/// nothing where chrono refuses the text. The result depends on the two
/// texts alone and is known here only by name; it is claimed for the day
/// format only.
#[verifier::external_body]
fn parse_midnight(text: &str, format: &str) -> (seconds: Option<i64>)
    requires
        format@ == day_format(),
    ensures
        seconds == midnight_of(text@, format@),
{
    match chrono::NaiveDate::parse_from_str(text, format) {
        Ok(day) => Some(day.and_time(chrono::NaiveTime::MIN).and_utc().timestamp()),
        Err(_) => None,
    }
}

/// Turns a timestamp into a moment in UTC with
/// `chrono::DateTime::from_timestamp` and writes it with
/// `chrono::DateTime::format`, or gives nothing where chrono has no moment
/// for the timestamp or cannot write it. The result depends on the timestamp
/// and the format alone and is known here only by name; it is claimed for
/// the day format only.
#[verifier::external_body]
fn format_day(seconds: i64, format: &str) -> (text: Option<String>)
    requires
        format@ == day_format(),
    ensures
        text is Some <==> day_of(seconds, format@) is Some,
        text matches Some(day) ==> day_of(seconds, format@) == Some(day@),
{
    match chrono::DateTime::from_timestamp(seconds, 0) {
        Some(moment) => {
            let mut day = String::new();
            match moment.format(format).write_to(&mut day) {
                Ok(()) => Some(day),
                Err(_) => None,
            }
        },
        None => None,
    }
}

/// The cutoff that a parsed lower bound stands for, or the error where the
/// bound could not be read.
pub open spec fn cutoff_from(parsed: Option<i64>) -> Result<i64, AuditError> {
    match parsed {
        Some(seconds) => Ok(seconds),
        None => Err(AuditError::InvalidSince),
    }
}

/// Accepts the midnight of a day that could be read as the cutoff and
/// refuses a bound that could not.
pub fn cutoff_of(parsed: Option<i64>) -> (cutoff: Result<i64, AuditError>)
    ensures
        cutoff == cutoff_from(parsed),
{
    match parsed {
        Some(seconds) => Ok(seconds),
        None => Err(AuditError::InvalidSince),
    }
}

/// Reads the lower bound of the time window, a day written as year, month
/// and day, and gives the cutoff: the first second of that day in UTC.
pub fn parse_since(text: &str) -> (cutoff: Result<i64, AuditError>)
    ensures
        cutoff == cutoff_from(midnight_of(text@, day_format())),
{
    cutoff_of(parse_midnight(text, "%Y-%m-%d"))
}

/// The cutoff of a run whose lower bound is optional: there is none where no
/// bound is given.
pub open spec fn window_from(since: Option<Seq<char>>) -> Result<Option<i64>, AuditError> {
    match since {
        Some(text) => match cutoff_from(midnight_of(text, day_format())) {
            Ok(seconds) => Ok(Some(seconds)),
            Err(error) => Err(error),
        },
        None => Ok(None),
    }
}

/// Reads the optional lower bound of the time window.
pub fn parse_window(since: Option<&str>) -> (cutoff: Result<Option<i64>, AuditError>)
    ensures
        cutoff == window_from(
            match since {
                Some(text) => Some(text@),
                None => None,
            },
        ),
{
    match since {
        Some(text) => match parse_since(text) {
            Ok(seconds) => Ok(Some(seconds)),
            Err(error) => Err(error),
        },
        None => Ok(None),
    }
}

/// The day that is shown for a timestamp: its own where it has one, else the
/// first day of 1970.
pub open spec fn shown_day(day: Option<Seq<char>>) -> Seq<char> {
    match day {
        Some(text) => text,
        None => epoch_day(),
    }
}

/// Picks the day that is shown for a timestamp.
pub fn day_or_epoch(day: Option<String>) -> (text: String)
    ensures
        text@ == shown_day(
            match day {
                Some(d) => Some(d@),
                None => None,
            },
        ),
{
    match day {
        Some(text) => text,
        None => String::from_str("1970-01-01"),
    }
}

/// The UTC day of a timestamp, written as year, month and day.
pub fn day_text(seconds: i64) -> (text: String)
    ensures
        text@ == shown_day(day_of(seconds, day_format())),
{
    day_or_epoch(format_day(seconds, "%Y-%m-%d"))
}

} // verus!
