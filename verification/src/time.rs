use chrono::{Local, NaiveDate, NaiveDateTime, TimeZone, Timelike};
use vstd::prelude::*;

use crate::number::{decimal, i64_text};
use crate::text::concat3;

verus! {

/// The format of a time in a list of chats.
pub const SHORT_TIME: &'static str = "%m-%d %H:%M";

/// The format of a time in a list of messages.
pub const LONG_TIME: &'static str = "%Y-%m-%d %H:%M";

/// The format of a time in a list of events.
pub const CLOCK_TIME: &'static str = "%H:%M";

/// The formats in which a time is shown.
pub open spec fn is_time_format(fmt: Seq<char>) -> bool {
    fmt == SHORT_TIME@ || fmt == LONG_TIME@ || fmt == CLOCK_TIME@
}

/// Whether the calendar reaches a time, in seconds since 1970.
pub open spec fn in_calendar(ts: int) -> bool {
    -8_334_601_228_800 <= ts <= 8_210_266_876_799
}

/// What `chrono` writes, in a format, for the date and time of day that a clock shows so many
/// seconds after it showed the beginning of 1970.
pub uninterp spec fn clock_text(secs: int, fmt: Seq<char>) -> Seq<char>;

/// `TimeZone::timestamp_opt` of `chrono::Local`, then `DateTime::format`: nothing for a time that
/// the calendar does not reach, else the text for what the local clocks show. How far they are
/// from UTC depends on the machine; it is less than a day.
#[verifier::external_body]
pub(crate) fn local_text(ts: i64, fmt: &str) -> (r: Option<String>)
    requires
        is_time_format(fmt@),
    ensures
        r is Some <==> in_calendar(ts as int),
        r matches Some(t) ==> exists|zone: int|
            -86400 < zone < 86400 && t@ == #[trigger] clock_text(ts + zone, fmt@),
{
    Local.timestamp_opt(ts, 0).single().map(|dt| dt.format(fmt).to_string())
}

/// The hour of the day that a clock shows, so many seconds after the beginning of 1970.
pub open spec fn hour_at(secs: int) -> int {
    secs % 86400 / 3600
}

/// `TimeZone::timestamp_opt` of `chrono::Local`, then `Timelike::hour`: nothing for a time that
/// the calendar does not reach, else the hour that the local clocks show.
#[verifier::external_body]
pub(crate) fn local_hour(ts: i64) -> (r: Option<u32>)
    ensures
        r is Some <==> in_calendar(ts as int),
        r matches Some(h) ==> h < 24 && exists|zone: int|
            -86400 < zone < 86400 && h == #[trigger] hour_at(ts + zone),
{
    Local.timestamp_opt(ts, 0).single().map(|dt| dt.hour())
}

/// The text of a time, given what the local clocks show: where the calendar does not reach the
/// time, its number of seconds.
pub open spec fn time_or_number(ts: i64, clock: Option<Seq<char>>) -> Seq<char> {
    match clock {
        Some(t) => t,
        None => decimal(ts as int),
    }
}

/// The text of a time, given what the local clocks show.
pub fn time_text_from(ts: i64, clock: Option<String>) -> (r: String)
    ensures
        r@ == time_or_number(
            ts,
            match clock {
                Some(t) => Some(t@),
                None => None,
            },
        ),
{
    match clock {
        Some(t) => t,
        None => i64_text(ts),
    }
}

/// Whether `t` is the text of a time, wherever the machine stands.
pub open spec fn shows_time(ts: i64, fmt: Seq<char>, t: Seq<char>) -> bool {
    if in_calendar(ts as int) {
        exists|zone: int| -86400 < zone < 86400 && t == #[trigger] clock_text(ts + zone, fmt)
    } else {
        t == decimal(ts as int)
    }
}

/// The text of a time, as the local clocks show it.
pub fn fmt_time(ts: i64, fmt: &str) -> (r: String)
    requires
        is_time_format(fmt@),
    ensures
        shows_time(ts, fmt@, r@),
{
    time_text_from(ts, local_text(ts, fmt))
}

/// The hours and minutes of a time, as the local clocks show them.
pub fn fmt_hhmm(ts: i64) -> (r: String)
    ensures
        shows_time(ts, CLOCK_TIME@, r@),
{
    fmt_time(ts, CLOCK_TIME)
}

/// A date with the time of day to the second.
pub const DATE_SECONDS: &'static str = "%Y-%m-%d %H:%M:%S";

/// A date with the time of day to the minute.
pub const DATE_MINUTES: &'static str = "%Y-%m-%d %H:%M";

/// A date alone.
pub const DATE_ONLY: &'static str = "%Y-%m-%d";

/// The seconds since 1970, in UTC, of the date and time that `NaiveDateTime::parse_from_str` reads.
pub uninterp spec fn datetime_read(s: Seq<char>, fmt: Seq<char>) -> Option<int>;

/// The days since 1970 of the date that `NaiveDate::parse_from_str` reads.
pub uninterp spec fn date_read(s: Seq<char>, fmt: Seq<char>) -> Option<int>;

/// `NaiveDateTime::parse_from_str`: the date and time that a text gives in a format, in seconds
/// since 1970. A format of a date alone gives no time.
#[verifier::external_body]
pub(crate) fn read_datetime(s: &str, fmt: &str) -> (r: Option<i64>)
    ensures
        match r {
            Some(t) => datetime_read(s@, fmt@) == Some(t as int),
            None => datetime_read(s@, fmt@) is None,
        },
        fmt@ == DATE_ONLY@ ==> r is None,
{
    NaiveDateTime::parse_from_str(s, fmt).ok().map(|dt| dt.and_utc().timestamp())
}

/// `NaiveDate::parse_from_str`, then `NaiveDate::and_hms_opt`: the given time of the day that a
/// text names in a format, in seconds since 1970. Reading takes the items of a format one after
/// the other and wants the text used up, so what is read as a date alone is too short for a
/// format that goes on with a time.
#[verifier::external_body]
pub(crate) fn read_date(s: &str, fmt: &str, hour: u32, min: u32, sec: u32) -> (r: Option<i64>)
    requires
        hour < 24,
        min < 60,
        sec < 60,
    ensures
        match r {
            Some(t) => date_read(s@, fmt@) is Some && t == date_read(s@, fmt@)->0 * 86400 + hour
                * 3600 + min * 60 + sec,
            None => date_read(s@, fmt@) is None,
        },
        r is Some && fmt@ == DATE_ONLY@ ==> {
            &&& datetime_read(s@, DATE_SECONDS@) is None
            &&& date_read(s@, DATE_SECONDS@) is None
            &&& datetime_read(s@, DATE_MINUTES@) is None
            &&& date_read(s@, DATE_MINUTES@) is None
            &&& datetime_read(s@, DATE_ONLY@) is None
        },
{
    let day = NaiveDate::parse_from_str(s, fmt).ok();
    day.and_then(|d| d.and_hms_opt(hour, min, sec)).map(|dt| dt.and_utc().timestamp())
}

/// The time that a text gives in one format: a date without a time is the beginning of the day.
pub open spec fn time_in(s: Seq<char>, fmt: Seq<char>) -> Option<int> {
    match datetime_read(s, fmt) {
        Some(t) => Some(t),
        None => match date_read(s, fmt) {
            Some(d) => Some(d * 86400),
            None => None,
        },
    }
}

/// The time that a text gives: in the most precise format in which it can be read.
pub open spec fn time_of(s: Seq<char>) -> Option<int> {
    if time_in(s, DATE_SECONDS@) is Some {
        time_in(s, DATE_SECONDS@)
    } else if time_in(s, DATE_MINUTES@) is Some {
        time_in(s, DATE_MINUTES@)
    } else {
        time_in(s, DATE_ONLY@)
    }
}

/// The last second that a text means: that of the day where the text is a date alone.
pub open spec fn end_time_of(s: Seq<char>) -> Option<int> {
    match date_read(s, DATE_ONLY@) {
        Some(d) => Some(d * 86400 + 86399),
        None => time_of(s),
    }
}

/// A text that gives no time.
#[derive(Debug)]
pub struct TimeError {
    /// The text.
    pub text: String,
}

impl TimeError {
    /// What is reported of it.
    pub fn message(&self) -> (r: String)
        ensures
            r@ == "无法解析时间 '"@ + self.text@
                + "'，支持 YYYY-MM-DD / YYYY-MM-DD HH:MM / YYYY-MM-DD HH:MM:SS"@,
    {
        concat3(
            "无法解析时间 '",
            self.text.as_str(),
            "'，支持 YYYY-MM-DD / YYYY-MM-DD HH:MM / YYYY-MM-DD HH:MM:SS",
        )
    }
}

fn read_time(s: &str, fmt: &str) -> (r: Option<i64>)
    ensures
        match r {
            Some(t) => time_in(s@, fmt@) == Some(t as int),
            None => time_in(s@, fmt@) is None,
        },
{
    match read_datetime(s, fmt) {
        Some(t) => Some(t),
        None => read_date(s, fmt, 0, 0, 0),
    }
}

/// The time that a text gives, from what was read of it to the second, to the minute and as a
/// date: the first of these that gave a time.
pub fn time_from(s: &str, to_second: Option<i64>, to_minute: Option<i64>, date: Option<i64>) -> (r:
    Result<i64, TimeError>)
    ensures
        match r {
            Ok(t) => Some(t) == (if to_second is Some {
                to_second
            } else if to_minute is Some {
                to_minute
            } else {
                date
            }),
            Err(e) => to_second is None && to_minute is None && date is None && e.text@ == s@,
        },
{
    match (to_second, to_minute, date) {
        (Some(t), _, _) => Ok(t),
        (None, Some(t), _) => Ok(t),
        (None, None, Some(t)) => Ok(t),
        (None, None, None) => Err(TimeError { text: s.to_owned() }),
    }
}

/// The time that a text gives, in seconds since 1970.
pub fn parse_time(s: &str) -> (r: Result<i64, TimeError>)
    ensures
        match r {
            Ok(t) => time_of(s@) == Some(t as int),
            Err(e) => time_of(s@) is None && e.text@ == s@,
        },
{
    time_from(
        s,
        read_time(s, DATE_SECONDS),
        read_time(s, DATE_MINUTES),
        read_time(s, DATE_ONLY),
    )
}

/// The last second that a text means, from the last second of the day that was read of it as a date
/// alone and from the time that it gives otherwise: the first counts, where there is one.
pub fn end_time_from(day_end: Option<i64>, time: Result<i64, TimeError>) -> (r: Result<
    i64,
    TimeError,
>)
    ensures
        r == (match day_end {
            Some(t) => Ok(t),
            None => time,
        }),
{
    match day_end {
        Some(t) => Ok(t),
        None => time,
    }
}

/// The last second that a text means, in seconds since 1970. For a date alone it is the last second
/// of the day that `parse_time` gives the first second of; for any other text it is what
/// `parse_time` gives.
pub fn parse_time_end(s: &str) -> (r: Result<i64, TimeError>)
    ensures
        match r {
            Ok(t) => end_time_of(s@) == Some(t as int),
            Err(e) => end_time_of(s@) is None && e.text@ == s@,
        },
        date_read(s@, DATE_ONLY@) is Some ==> r is Ok && time_of(s@) is Some && end_time_of(s@)->0
            == time_of(s@)->0 + 86399,
        date_read(s@, DATE_ONLY@) is None ==> end_time_of(s@) == time_of(s@),
{
    end_time_from(read_date(s, DATE_ONLY, 23, 59, 59), parse_time(s))
}

} // verus!
