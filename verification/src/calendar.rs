//! The calendar: what the `time` crate computes for the library.
//!
//! A date and time is handed over as plain numbers: the seconds since
//! 1970-01-01 00:00 that a clock showing that date and time in UTC would have
//! counted ("local seconds"), the nanoseconds within the second, and the
//! offset from UTC in seconds. Nothing in this file is proved: each function
//! says what it takes on trust from the `time` crate.

use vstd::prelude::*;

verus! {

/// Local seconds of -9999-01-01 00:00:00, the earliest date and time that the
/// `time` crate holds.
pub const MIN_LOCAL: i64 = -377_705_116_800;

/// Local seconds of 9999-12-31 23:59:59, the latest second that the `time`
/// crate holds.
pub const MAX_LOCAL: i64 = 253_402_300_799;

/// The largest offset from UTC, in seconds, that the `time` crate holds:
/// 25:59:59.
pub const MAX_OFFSET: i32 = 93_599;

/// What `PrimitiveDateTime::parse` makes of a text under a format
/// description: the fault in the description, or nothing where the text does
/// not fit it, or else local seconds and nanoseconds.
pub uninterp spec fn plain_date_time_parse(s: Seq<char>, fmt: Seq<char>) -> Result<
    Option<(int, int)>,
    Seq<char>,
>;

/// What `OffsetDateTime::parse` makes of a text under a format description:
/// the fault in the description, or nothing where the text does not fit it, or
/// else the seconds since the epoch, nanoseconds and the offset in seconds.
pub uninterp spec fn offset_date_time_parse(s: Seq<char>, fmt: Seq<char>) -> Result<
    Option<(int, int, int)>,
    Seq<char>,
>;

/// What `Time::parse` makes of a text under a format description: the fault
/// in the description, or nothing where the text does not fit it, or else
/// hour, minute, second and nanoseconds.
pub uninterp spec fn time_parse(s: Seq<char>, fmt: Seq<char>) -> Result<
    Option<(int, int, int, int)>,
    Seq<char>,
>;

/// The calendar date that local seconds fall on: year, month (1 to 12) and
/// day of the month, as `OffsetDateTime::year`, `month` and `day` give them.
pub uninterp spec fn date_of(local: int) -> (int, int, int);

/// Local seconds of the midnight that starts a calendar date, as
/// `Date::from_calendar_date` and `Date::midnight` give them, or nothing
/// where the calendar has no such date.
pub uninterp spec fn date_seconds(year: int, month: int, day: int) -> Option<int>;

/// Local seconds of the midnight that starts the first day of the month that
/// the given local seconds fall in.
pub open spec fn first_of_month(local: int) -> int {
    match date_seconds(date_of(local).0, date_of(local).1, 1) {
        Some(first) => first,
        None => local,
    }
}

/// Local seconds of the midnight that starts the first of January of the year
/// that the given local seconds fall in.
pub open spec fn first_of_year(local: int) -> int {
    match date_seconds(date_of(local).0, 1, 1) {
        Some(first) => first,
        None => local,
    }
}

/// What `OffsetDateTime::format` writes for a date and time under a format
/// description, or the fault in the description or in writing.
pub uninterp spec fn date_time_format(local: int, nanos: int, offset: int, fmt: Seq<char>) -> Result<
    Seq<char>,
    Seq<char>,
>;

/// What `OffsetDateTime::format` writes for a date and time in the form of
/// RFC 3339, or nothing where that form cannot write it.
pub uninterp spec fn rfc3339_text(local: int, nanos: int, offset: int) -> Option<Seq<char>>;

/// What `OffsetDateTime::parse` makes of a text in the form of RFC 3339:
/// the seconds since the epoch, nanoseconds and the offset in seconds, or
/// nothing where the text is not in that form.
pub uninterp spec fn rfc3339_moment(s: Seq<char>) -> Option<(int, int, int)>;

/// Reads a date and time without offset.
///
/// Trusted: `time::format_description::parse` on `fmt`, then
/// `time::PrimitiveDateTime::parse` on `s`. The contract names the result and
/// adds the ranges that the crate's types keep: the date lies between the
/// years -9999 and 9999, the nanoseconds are below a second.
#[verifier::external_body]
pub(crate) fn parse_plain(s: &str, fmt: &str) -> (r: Result<Option<(i64, u32)>, String>)
    ensures
        match r {
            Ok(Some(p)) => plain_date_time_parse(s@, fmt@) == Ok::<Option<(int, int)>, Seq<char>>(
                Some((p.0 as int, p.1 as int)),
            ) && MIN_LOCAL <= p.0 <= MAX_LOCAL && p.1 < 1_000_000_000,
            Ok(None) => plain_date_time_parse(s@, fmt@) == Ok::<Option<(int, int)>, Seq<char>>(None),
            Err(m) => plain_date_time_parse(s@, fmt@) == Err::<Option<(int, int)>, Seq<char>>(m@),
        },
{
    match time::format_description::parse(fmt) {
        Err(e) => Err(e.to_string()),
        Ok(items) => Ok(
            match time::PrimitiveDateTime::parse(s, &items) {
                Ok(dt) => Some((dt.assume_utc().unix_timestamp(), dt.nanosecond())),
                Err(_) => None,
            },
        ),
    }
}

/// Reads a date and time with its offset.
///
/// Trusted: `time::format_description::parse` on `fmt`, then
/// `time::OffsetDateTime::parse` on `s`. The contract names the result and
/// adds the ranges that the crate's types keep: the date, as the offset
/// shows it, lies between the years -9999 and 9999, the offset is at most
/// 25:59:59 either way, the nanoseconds are below a second.
#[verifier::external_body]
pub(crate) fn parse_with_offset(s: &str, fmt: &str) -> (r: Result<
    Option<(i64, u32, i32)>,
    String,
>)
    ensures
        match r {
            Ok(Some(p)) => offset_date_time_parse(s@, fmt@) == Ok::<
                Option<(int, int, int)>,
                Seq<char>,
            >(Some((p.0 as int, p.1 as int, p.2 as int))) && MIN_LOCAL <= p.0 + p.2 <= MAX_LOCAL
                && p.1 < 1_000_000_000 && -MAX_OFFSET <= p.2 <= MAX_OFFSET,
            Ok(None) => offset_date_time_parse(s@, fmt@) == Ok::<
                Option<(int, int, int)>,
                Seq<char>,
            >(None),
            Err(m) => offset_date_time_parse(s@, fmt@) == Err::<
                Option<(int, int, int)>,
                Seq<char>,
            >(m@),
        },
{
    match time::format_description::parse(fmt) {
        Err(e) => Err(e.to_string()),
        Ok(items) => Ok(
            match time::OffsetDateTime::parse(s, &items) {
                Ok(dt) => Some((dt.unix_timestamp(), dt.nanosecond(), dt.offset().whole_seconds())),
                Err(_) => None,
            },
        ),
    }
}

/// Reads a time of day.
///
/// Trusted: `time::format_description::parse` on `fmt`, then
/// `time::Time::parse` on `s`. The contract names the result and adds the
/// ranges that the crate's type keeps: hours below 24, minutes and seconds
/// below 60, nanoseconds below a second.
#[verifier::external_body]
pub(crate) fn parse_time(s: &str, fmt: &str) -> (r: Result<Option<(u8, u8, u8, u32)>, String>)
    ensures
        match r {
            Ok(Some(p)) => time_parse(s@, fmt@) == Ok::<Option<(int, int, int, int)>, Seq<char>>(
                Some((p.0 as int, p.1 as int, p.2 as int, p.3 as int)),
            ) && p.0 < 24 && p.1 < 60 && p.2 < 60 && p.3 < 1_000_000_000,
            Ok(None) => time_parse(s@, fmt@) == Ok::<Option<(int, int, int, int)>, Seq<char>>(
                None,
            ),
            Err(m) => time_parse(s@, fmt@) == Err::<Option<(int, int, int, int)>, Seq<char>>(m@),
        },
{
    match time::format_description::parse(fmt) {
        Err(e) => Err(e.to_string()),
        Ok(items) => Ok(
            match time::Time::parse(s, &items) {
                Ok(t) => Some((t.hour(), t.minute(), t.second(), t.nanosecond())),
                Err(_) => None,
            },
        ),
    }
}

/// The number of days from the last Monday to the day that the given local
/// seconds fall on: 0 on a Monday, 6 on a Sunday.
///
/// Trusted: `time::OffsetDateTime::weekday` and
/// `time::Weekday::number_days_from_monday`. The crate takes the weekday from
/// the count of days; 1970-01-01 was a Thursday.
#[verifier::external_body]
pub(crate) fn days_from_monday(local: i64) -> (r: u8)
    requires
        MIN_LOCAL <= local <= MAX_LOCAL,
    ensures
        r == (local / 86400 + 3) % 7,
{
    time::OffsetDateTime::from_unix_timestamp(local).unwrap().weekday().number_days_from_monday()
}

/// The calendar date that local seconds fall on: year, month and day.
///
/// Trusted: `time::OffsetDateTime::from_unix_timestamp`, then `year`,
/// `month` and `day`. The contract names the result and adds the ranges that
/// the crate documents for the three, and that a day is never earlier than
/// the first day of its month or of its year.
#[verifier::external_body]
pub(crate) fn calendar_date(local: i64) -> (r: (i32, u8, u8))
    requires
        MIN_LOCAL <= local <= MAX_LOCAL,
    ensures
        date_of(local as int) == (r.0 as int, r.1 as int, r.2 as int),
        -9999 <= r.0 <= 9999,
        1 <= r.1 <= 12,
        1 <= r.2 <= 31,
        date_seconds(r.0 as int, r.1 as int, 1) matches Some(first) ==> first <= local,
        date_seconds(r.0 as int, 1, 1) matches Some(first) ==> first <= local,
{
    let at = time::OffsetDateTime::from_unix_timestamp(local).unwrap();
    (at.year(), u8::from(at.month()), at.day())
}

/// Local seconds of the midnight that starts a calendar date.
///
/// Trusted: `time::Month::try_from`, `time::Date::from_calendar_date` and
/// `time::Date::midnight`. The contract names the result, adds that it lies
/// within the dates that the crate holds, and that there is one wherever the
/// year lies between -9999 and 9999, the month between 1 and 12 and the day
/// between 1 and 28: those the crate accepts without looking at the month.
#[verifier::external_body]
pub(crate) fn midnight_of_date(year: i32, month: u8, day: u8) -> (r: Option<i64>)
    ensures
        match r {
            Some(s) => date_seconds(year as int, month as int, day as int) == Some(s as int)
                && MIN_LOCAL <= s <= MAX_LOCAL,
            None => date_seconds(year as int, month as int, day as int) is None,
        },
        -9999 <= year <= 9999 && 1 <= month <= 12 && 1 <= day <= 28 ==> r is Some,
{
    match time::Month::try_from(month) {
        Ok(m) => match time::Date::from_calendar_date(year, m, day) {
            Ok(date) => Some(date.midnight().assume_utc().unix_timestamp()),
            Err(_) => None,
        },
        Err(_) => None,
    }
}

/// Writes a date and time under a format description.
///
/// Trusted: `time::format_description::parse` on `fmt`, then
/// `time::OffsetDateTime::format`. The contract names the result.
#[verifier::external_body]
pub(crate) fn format_date_time(local: i64, nanos: u32, offset: i32, fmt: &str) -> (r: Result<
    String,
    String,
>)
    requires
        MIN_LOCAL <= local <= MAX_LOCAL,
        nanos < 1_000_000_000,
        -MAX_OFFSET <= offset <= MAX_OFFSET,
    ensures
        match r {
            Ok(t) => date_time_format(local as int, nanos as int, offset as int, fmt@) == Ok::<
                Seq<char>,
                Seq<char>,
            >(t@),
            Err(m) => date_time_format(local as int, nanos as int, offset as int, fmt@) == Err::<
                Seq<char>,
                Seq<char>,
            >(m@),
        },
{
    let at = time::OffsetDateTime::from_unix_timestamp(local).unwrap().replace_nanosecond(
        nanos,
    ).unwrap().replace_offset(time::UtcOffset::from_whole_seconds(offset).unwrap());
    match time::format_description::parse(fmt) {
        Err(e) => Err(e.to_string()),
        Ok(items) => match at.format(&items) {
            Ok(text) => Ok(text),
            Err(e) => Err(e.to_string()),
        },
    }
}

/// Writes a date and time in the form of RFC 3339.
///
/// Trusted: `time::OffsetDateTime::format` with
/// `time::format_description::well_known::Rfc3339`. The contract names the
/// result.
#[verifier::external_body]
pub(crate) fn format_rfc3339(local: i64, nanos: u32, offset: i32) -> (r: Option<String>)
    requires
        MIN_LOCAL <= local <= MAX_LOCAL,
        nanos < 1_000_000_000,
        -MAX_OFFSET <= offset <= MAX_OFFSET,
    ensures
        match r {
            Some(t) => rfc3339_text(local as int, nanos as int, offset as int) == Some(t@),
            None => rfc3339_text(local as int, nanos as int, offset as int) is None,
        },
{
    let at = time::OffsetDateTime::from_unix_timestamp(local).unwrap().replace_nanosecond(
        nanos,
    ).unwrap().replace_offset(time::UtcOffset::from_whole_seconds(offset).unwrap());
    at.format(&time::format_description::well_known::Rfc3339).ok()
}

/// Reads a date and time in the form of RFC 3339.
///
/// Trusted: `time::OffsetDateTime::parse` with
/// `time::format_description::well_known::Rfc3339`. The contract names the
/// result and adds the ranges that the crate's types keep: the date, as the
/// offset shows it, lies between the years -9999 and 9999, the offset is at
/// most 25:59:59 either way, the nanoseconds are below a second.
#[verifier::external_body]
pub(crate) fn parse_rfc3339(s: &str) -> (r: Option<(i64, u32, i32)>)
    ensures
        match r {
            Some(p) => rfc3339_moment(s@) == Some((p.0 as int, p.1 as int, p.2 as int))
                && MIN_LOCAL <= p.0 + p.2 <= MAX_LOCAL && p.1 < 1_000_000_000 && -MAX_OFFSET
                <= p.2 <= MAX_OFFSET,
            None => rfc3339_moment(s@) is None,
        },
{
    match time::OffsetDateTime::parse(s, &time::format_description::well_known::Rfc3339) {
        Ok(dt) => Some((dt.unix_timestamp(), dt.nanosecond(), dt.offset().whole_seconds())),
        Err(_) => None,
    }
}

} // verus!
