//! Publish dates.  A date is read from text by the `chrono` crate and held
//! as an instant on the UTC time line.

use vstd::prelude::*;
use chrono::Datelike;
use std::fmt::Write;

verus! {

/// An instant: seconds since 1970-01-01 00:00:00 UTC, and the nanoseconds
/// that follow the last full second.
#[derive(Debug, Clone, Copy, PartialEq, Eq, Structural)]
pub struct Timestamp {
    pub secs: i64,
    pub nanos: u32,
}

/// An instant as a clock shows it that runs `offset` seconds ahead of UTC.
#[derive(Debug, Clone, Copy, PartialEq, Eq, Structural)]
pub struct ZonedTime {
    pub instant: Timestamp,
    pub offset: i32,
}

/// The format of the date that opens a post link's text.
pub const LINK_DATE_FORMAT: &'static str = "%Y-%m-%d";

/// The number that `chrono` gives the first day of 1970, counting days
/// from the first day of year 1 as day 1.
pub const EPOCH_DAY: i64 = 719_163;

/// Seconds in a day.
pub const DAY_SECONDS: i64 = 86_400;

/// Seconds from midnight to noon.
pub const NOON_SECONDS: i64 = 43_200;

/// The calendar date that `text` holds in the format `format`, as the
/// number of its day, counted from the first day of year 1 as day 1.
/// `None` where `text` does not follow `format`.
pub uninterp spec fn date_day_number(text: Seq<char>, format: Seq<char>) -> Option<int>;

/// The instant that `text` holds in the format `format`, which gives a date,
/// a time of day and an offset from UTC.  `None` where `text` does not
/// follow `format`.
pub uninterp spec fn datetime_instant(text: Seq<char>, format: Seq<char>) -> Option<Timestamp>;

/// The text that shows, in the format `format`, the instant `secs`
/// seconds and `nanos` nanoseconds after the start of 1970 on a clock that
/// runs `offset` seconds ahead of UTC.  `None` where there is no such
/// instant or offset, or `format` is not a format.
pub uninterp spec fn datetime_text(secs: int, nanos: int, offset: int, format: Seq<char>) -> Option<
    Seq<char>,
>;

/// Noon UTC on the day with number `day`.
pub open spec fn noon_utc(day: int) -> int {
    (day - EPOCH_DAY) * DAY_SECONDS + NOON_SECONDS
}

/// Calls `chrono::NaiveDate::parse_from_str`, then `num_days_from_ce` on
/// the date.  Trusted: the result is the one that `date_day_number` names,
/// a function of the two texts alone.
#[verifier::external_body]
pub(crate) fn parse_day_number(text: &str, format: &str) -> (day: Option<i32>)
    ensures
        match day {
            Some(d) => date_day_number(text@, format@) == Some(d as int),
            None => date_day_number(text@, format@) is None,
        },
{
    let date = chrono::NaiveDate::parse_from_str(text, format).ok()?;
    Some(date.num_days_from_ce())
}

/// Calls `chrono::DateTime::parse_from_str`, then `timestamp` and
/// `timestamp_subsec_nanos` on the result.  Trusted: the result is the one
/// that `datetime_instant` names, a function of the two texts alone.
#[verifier::external_body]
pub(crate) fn parse_instant(text: &str, format: &str) -> (instant: Option<Timestamp>)
    ensures
        instant == datetime_instant(text@, format@),
{
    let time = chrono::DateTime::parse_from_str(text, format).ok()?;
    Some(Timestamp { secs: time.timestamp(), nanos: time.timestamp_subsec_nanos() })
}

/// Calls `chrono::FixedOffset::east_opt`, `chrono::DateTime::from_timestamp`
/// and `with_timezone`, then `format` on the result, and writes out what
/// that gives.  Trusted: the result is the one that `datetime_text`
/// names, a function of the numbers and the format alone.
#[verifier::external_body]
pub(crate) fn print_zoned(time: &ZonedTime, format: &str) -> (text: Option<String>)
    ensures
        match text {
            Some(t) => datetime_text(
                time.instant.secs as int,
                time.instant.nanos as int,
                time.offset as int,
                format@,
            ) == Some(t@),
            None => datetime_text(
                time.instant.secs as int,
                time.instant.nanos as int,
                time.offset as int,
                format@,
            ) is None,
        },
{
    let offset = chrono::FixedOffset::east_opt(time.offset)?;
    let utc = chrono::DateTime::from_timestamp(time.instant.secs, time.instant.nanos)?;
    let mut text = String::new();
    write!(text, "{}", utc.with_timezone(&offset).format(format)).ok()?;
    Some(text)
}

/// Noon UTC on the day with number `day`.
pub fn noon_of_day(day: i32) -> (t: Timestamp)
    ensures
        t.secs == noon_utc(day as int),
        t.nanos == 0,
{
    let day: i64 = day as i64;
    Timestamp { secs: (day - EPOCH_DAY) * DAY_SECONDS + NOON_SECONDS, nanos: 0 }
}

} // verus!
