use vstd::prelude::*;

use crate::number::decimal;
use crate::requests::{gives_end, gives_time, is_unread_time};
use crate::time::{
    clock_text, date_read, datetime_read, end_time_of, hour_at, is_time_format, shows_time, time_of,
    time_or_number,
};

verus! {

/// A text with a date and a time is read to the second, else to the minute.
pub proof fn law_time_read(s: Seq<char>, t: int)
    ensures
        datetime_read(s, "%Y-%m-%d %H:%M:%S"@) == Some(t) ==> time_of(s) == Some(t),
        datetime_read(s, "%Y-%m-%d %H:%M:%S"@) is None && date_read(s, "%Y-%m-%d %H:%M:%S"@) is None
            && datetime_read(s, "%Y-%m-%d %H:%M"@) == Some(t) ==> time_of(s) == Some(t),
{
}

/// A date alone is the first second of its day where a time begins, and the last where it ends.
pub proof fn law_day(s: Seq<char>, day: int)
    requires
        date_read(s, "%Y-%m-%d"@) == Some(day),
        datetime_read(s, "%Y-%m-%d %H:%M:%S"@) is None,
        date_read(s, "%Y-%m-%d %H:%M:%S"@) is None,
        datetime_read(s, "%Y-%m-%d %H:%M"@) is None,
        date_read(s, "%Y-%m-%d %H:%M"@) is None,
        datetime_read(s, "%Y-%m-%d"@) is None,
    ensures
        time_of(s) == Some(day * 24 * 60 * 60),
        end_time_of(s) == Some((day + 1) * 24 * 60 * 60 - 1),
{
}

/// A text that is no date alone ends when it begins.
pub proof fn law_moment(s: Seq<char>)
    requires
        date_read(s, "%Y-%m-%d"@) is None,
    ensures
        end_time_of(s) == time_of(s),
{
}

/// A text that cannot be read in any of the three formats gives no time.
pub proof fn law_no_time(s: Seq<char>)
    requires
        datetime_read(s, "%Y-%m-%d %H:%M:%S"@) is None,
        date_read(s, "%Y-%m-%d %H:%M:%S"@) is None,
        datetime_read(s, "%Y-%m-%d %H:%M"@) is None,
        date_read(s, "%Y-%m-%d %H:%M"@) is None,
        datetime_read(s, "%Y-%m-%d"@) is None,
        date_read(s, "%Y-%m-%d"@) is None,
    ensures
        time_of(s) is None,
        end_time_of(s) is None,
{
}

/// A time is shown as the clocks of some place show it, in the format that was asked for; where the
/// calendar does not reach it, as its number.
pub proof fn law_time_shown(ts: i64, fmt: Seq<char>, t: Seq<char>)
    requires
        shows_time(ts, fmt, t),
    ensures
        -8_334_601_228_800 <= ts <= 8_210_266_876_799 ==> exists|zone: int|
            -24 * 60 * 60 < zone < 24 * 60 * 60 && t == #[trigger] clock_text(ts + zone, fmt),
        ts < -8_334_601_228_800 || ts > 8_210_266_876_799 ==> t == decimal(ts as int),
{
}

/// What the clocks show is taken over as it is.
pub proof fn law_clock_taken(ts: i64, clock: Seq<char>)
    ensures
        time_or_number(ts, Some(clock)) == clock,
        time_or_number(ts, None) == decimal(ts as int),
{
}

/// There are three formats.
pub proof fn law_formats()
    ensures
        is_time_format("%m-%d %H:%M"@),
        is_time_format("%Y-%m-%d %H:%M"@),
        is_time_format("%H:%M"@),
{
}

/// A request begins with the time that its text gives and ends with the last second that its text
/// means; without a text there is no bound.
pub proof fn law_span(s: Seq<char>, t: i64)
    ensures
        gives_time(Some(s), Some(t)) <==> time_of(s) == Some(t as int),
        gives_end(Some(s), Some(t)) <==> end_time_of(s) == Some(t as int),
        !gives_time(Some(s), None),
        !gives_end(Some(s), None),
        gives_time(None, None),
        gives_end(None, None),
        !gives_time(None, Some(t)),
        !gives_end(None, Some(t)),
{
}

/// The first text that gives no time is the one that is reported.
pub proof fn law_unread_time(since: Option<Seq<char>>, until: Option<Seq<char>>, e: Seq<char>)
    requires
        is_unread_time(since, until, e),
    ensures
        since is Some && time_of(since->0) is None ==> e == since->0,
        since is None || time_of(since->0) is Some ==> until is Some && end_time_of(until->0) is None
            && e == until->0,
{
}

/// The hour of the day is that of its seconds, on every day the same.
pub proof fn law_hour_at(hour: int, secs: int, day: int)
    requires
        0 <= hour < 24,
        0 <= secs < 60 * 60,
    ensures
        hour_at(day * (24 * 60 * 60) + hour * (60 * 60) + secs) == hour,
{
    let r = hour * 3600 + secs;
    vstd::arithmetic::div_mod::lemma_fundamental_div_mod_converse(
        day * 86400 + r,
        86400,
        day,
        r,
    );
    vstd::arithmetic::div_mod::lemma_fundamental_div_mod_converse(r, 3600, hour, secs);
}

} // verus!
