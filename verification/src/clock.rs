//! Moments in time: timestamps as the service writes them, and the clock.

use crate::number::{decimal, lemma_decimal_shape};
use vstd::prelude::*;

verus! {

/// A moment: seconds since 1970 in UTC, and the nanoseconds within the second.
#[derive(Clone, Copy)]
pub struct Moment {
    pub secs: i64,
    pub nanos: u32,
}

/// The moment is in the calendar, which runs from the year -262143 to the year
/// 262142. A leap second is counted by further nanoseconds of the last second of
/// a minute.
pub open spec fn in_calendar(m: Moment) -> bool {
    &&& -8_334_601_228_800 <= m.secs <= 8_210_266_876_799
    &&& m.nanos < 1_000_000_000 || (m.nanos < 2_000_000_000 && m.secs % 60 == 59)
}

/// How many whole seconds the moment comes after the time that an RFC 3339 text
/// gives, negative where it comes before.
pub uninterp spec fn seconds_since(iso: Seq<char>, secs: i64, nanos: u32) -> i64;

/// How many whole seconds the moment comes after the time that an RFC 3339 text
/// gives; nothing where the text is no such time, or the moment is outside the
/// calendar.
pub open spec fn seconds_after(iso: Seq<char>, now: Moment) -> Option<i64> {
    if date_of(iso) is Some && in_calendar(now) {
        Some(seconds_since(iso, now.secs, now.nanos))
    } else {
        None
    }
}

/// An RFC 3339 time as a day, a month and a year, such as `2 Jan 2020`, in the
/// time's own offset; nothing where the text is no such time.
pub uninterp spec fn date_of(iso: Seq<char>) -> Option<Seq<char>>;

/// Reads `iso` with `chrono::DateTime::parse_from_rfc3339`, subtracts it from
/// the moment, and takes `TimeDelta::num_seconds`. There is a result exactly where
/// the text can be read, which is where it has a date, and
/// `DateTime::from_timestamp` takes the moment. The contract gives it a name: it
/// depends on the text and the moment alone.
#[verifier::external_body]
pub(crate) fn elapsed_seconds(iso: &str, now: Moment) -> (r: Option<i64>)
    ensures
        match r {
            Some(n) => date_of(iso@) is Some && in_calendar(now) && n == seconds_since(
                iso@,
                now.secs,
                now.nanos,
            ),
            None => date_of(iso@) is None || !in_calendar(now),
        },
{
    let then = chrono::DateTime::parse_from_rfc3339(iso).ok()?.with_timezone(&chrono::Utc);
    let now = chrono::DateTime::from_timestamp(now.secs, now.nanos)?;
    Some((now - then).num_seconds())
}

/// Reads `iso` with `chrono::DateTime::parse_from_rfc3339` and writes it with
/// `DateTime::format` as `%-d %b %Y`. The contract gives the result a name: it
/// depends on the text alone.
#[verifier::external_body]
pub(crate) fn written_date(iso: &str) -> (r: Option<String>)
    ensures
        match r {
            Some(t) => date_of(iso@) == Some(t@),
            None => date_of(iso@) is None,
        },
{
    let then = chrono::DateTime::parse_from_rfc3339(iso).ok()?;
    Some(then.format("%-d %b %Y").to_string())
}

/// The present, from `chrono::Utc::now`. It gives no moment before 1970 and none
/// outside the calendar, and never a leap second; nothing else is claimed of it.
#[verifier::external_body]
pub(crate) fn present() -> (now: Moment)
    ensures
        in_calendar(now),
        now.secs >= 0,
        now.nanos < 1_000_000_000,
{
    let now = chrono::Utc::now();
    Moment { secs: now.timestamp(), nanos: now.timestamp_subsec_nanos() }
}

pub open spec fn is_leap(year: int) -> bool {
    year % 4 == 0 && (year % 100 != 0 || year % 400 == 0)
}

/// How many days a month has.
pub open spec fn month_length(year: int, month: int) -> int {
    if month == 2 {
        if is_leap(year) {
            29
        } else {
            28
        }
    } else if month == 4 || month == 6 || month == 9 || month == 11 {
        30
    } else {
        31
    }
}

/// How many days of a year come before a month.
pub open spec fn days_before_month(year: int, month: int) -> int
    decreases month,
{
    if month <= 1 {
        0
    } else {
        days_before_month(year, month - 1) + month_length(year, month - 1)
    }
}

/// How many days after the first of 1970 a year begins, counting every fourth
/// year as a leap year but for most full centuries.
pub open spec fn days_before_year(year: int) -> int {
    365 * (year - 1) + (year - 1) / 4 - (year - 1) / 100 + (year - 1) / 400 - 719_162
}

/// A second, counted from the start of 1970, falls into this minute.
pub open spec fn is_civil(
    secs: int,
    year: int,
    month: int,
    day: int,
    hour: int,
    minute: int,
) -> bool {
    let days = days_before_year(year) + days_before_month(year, month) + day - 1;
    &&& 1 <= month <= 12
    &&& 1 <= day <= month_length(year, month)
    &&& 0 <= hour < 24
    &&& 0 <= minute < 60
    &&& 0 <= secs - ((days * 24 + hour) * 60 + minute) * 60 < 60
}

/// A month's name in full.
pub open spec fn long_month(month: int) -> Seq<char> {
    if month == 1 {
        "January"@
    } else if month == 2 {
        "February"@
    } else if month == 3 {
        "March"@
    } else if month == 4 {
        "April"@
    } else if month == 5 {
        "May"@
    } else if month == 6 {
        "June"@
    } else if month == 7 {
        "July"@
    } else if month == 8 {
        "August"@
    } else if month == 9 {
        "September"@
    } else if month == 10 {
        "October"@
    } else if month == 11 {
        "November"@
    } else {
        "December"@
    }
}

/// A month's name, cut to three letters.
pub open spec fn short_month(month: int) -> Seq<char> {
    long_month(month).take(3)
}

/// The name of the day of the week into which a second falls.
pub open spec fn weekday_name(secs: int) -> Seq<char> {
    let n = (secs / 86_400) % 7;
    if n == 0 {
        "Thursday"@
    } else if n == 1 {
        "Friday"@
    } else if n == 2 {
        "Saturday"@
    } else if n == 3 {
        "Sunday"@
    } else if n == 4 {
        "Monday"@
    } else if n == 5 {
        "Tuesday"@
    } else {
        "Wednesday"@
    }
}

/// A number with zeros before it, where it has fewer digits than asked for.
pub open spec fn padded(n: nat, width: nat) -> Seq<char> {
    let digits = decimal(n);
    if digits.len() < width {
        Seq::new((width - digits.len()) as nat, |i: int| '0') + digits
    } else {
        digits
    }
}

/// A year of four digits; one that needs more, or comes before the year zero, has a
/// sign.
pub open spec fn year_text(year: int) -> Seq<char> {
    if year < 0 {
        "-"@ + padded((-year) as nat, 4)
    } else if year > 9_999 {
        "+"@ + decimal(year as nat)
    } else {
        padded(year as nat, 4)
    }
}

/// A time of day such as `09:30`.
pub open spec fn time_text(hour: int, minute: int) -> Seq<char> {
    padded(hour as nat, 2) + ":"@ + padded(minute as nat, 2)
}

/// A day such as `Friday, 14 August`, of a moment from 1970 on in some time zone.
pub open spec fn is_today(text: Seq<char>) -> bool {
    exists|secs: int, year: int, month: int, day: int, hour: int, minute: int|
        {
            &&& #[trigger] is_civil(secs, year, month, day, hour, minute)
            &&& secs > -86_400
            &&& text == weekday_name(secs) + ", "@ + decimal(day as nat) + " "@ + long_month(month)
        }
}

/// Today as a weekday, a day and a month, such as `Friday, 14 August`, from
/// `chrono::Local::now`. The contract says how it is written; which day it is
/// depends on the clock and the machine's time zone.
#[verifier::external_body]
pub fn today_label() -> (r: String)
    ensures
        is_today(r@),
{
    chrono::Local::now().format("%A, %-d %B").to_string()
}

/// A local time of this year as `14 Aug 09:30` and of another year as
/// `14 Aug 2024`.
pub struct LocalTime {
    pub year: i32,
    pub with_time: String,
    pub with_year: String,
}

/// The second has a date.
pub open spec fn dated(unix: i64) -> bool {
    in_calendar(Moment { secs: unix, nanos: 0 })
}

/// A local time as it can be for a second: there is one exactly where the second
/// is in the calendar, and it is the second's date and time of day in a time zone
/// less than a day away.
pub open spec fn local_fits(local: Option<LocalTime>, unix: i64) -> bool {
    &&& local is Some <==> dated(unix)
    &&& local matches Some(t) ==> exists|
        secs: int,
        month: int,
        day: int,
        hour: int,
        minute: int,
    |
        {
            &&& #[trigger] is_civil(secs, t.year as int, month, day, hour, minute)
            &&& unix - 86_400 < secs < unix + 86_400
            &&& t.with_time@ == decimal(day as nat) + " "@ + short_month(month) + " "@ + time_text(
                hour,
                minute,
            )
            &&& t.with_year@ == decimal(day as nat) + " "@ + short_month(month) + " "@ + year_text(
                t.year as int,
            )
        }
}

/// The local time of a second, from `TimeZone::timestamp_opt` of `chrono::Local`.
/// The contract says where there is one, and that it is the second's date and time
/// of day in some time zone; which zone that is depends on the machine.
#[verifier::external_body]
pub(crate) fn local_time(unix: i64) -> (r: Option<LocalTime>)
    ensures
        local_fits(r, unix),
{
    let dt = chrono::TimeZone::timestamp_opt(&chrono::Local, unix, 0).single()?;
    Some(
        LocalTime {
            year: chrono::Datelike::year(&dt),
            with_time: dt.format("%-d %b %H:%M").to_string(),
            with_year: dt.format("%-d %b %Y").to_string(),
        },
    )
}

/// The year by the local clock, from `chrono::Local::now`. It is no earlier than
/// the last day before 1970, which some time zones see at the start of 1970; which
/// it is depends on the clock and the machine's time zone.
#[verifier::external_body]
pub(crate) fn local_year() -> (r: i32)
    ensures
        r >= 1969,
{
    chrono::Datelike::year(&chrono::Local::now())
}

/// A day and a time of day such as `04 Aug 09:30`, of a moment from 1970 on in some
/// time zone.
pub open spec fn is_now_stamp(text: Seq<char>) -> bool {
    exists|secs: int, year: int, month: int, day: int, hour: int, minute: int|
        {
            &&& #[trigger] is_civil(secs, year, month, day, hour, minute)
            &&& secs > -86_400
            &&& text == padded(day as nat, 2) + " "@ + short_month(month) + " "@ + time_text(
                hour,
                minute,
            )
        }
}

/// The local day and time of day as `04 Aug 09:30`, from `chrono::Local::now`. The
/// contract says how it is written; what it says depends on the clock and the
/// machine's time zone.
#[verifier::external_body]
pub(crate) fn now_stamp() -> (r: String)
    ensures
        is_now_stamp(r@),
{
    chrono::Local::now().format("%d %b %H:%M").to_string()
}

/// A moment on the chart: the day and the time of day within this year, the day
/// and the year otherwise, and nothing where the moment has no local time.
pub open spec fn stamp_text(local: Option<LocalTime>, this_year: i32) -> Seq<char> {
    match local {
        Some(t) => if t.year == this_year {
            t.with_time@
        } else {
            t.with_year@
        },
        None => Seq::empty(),
    }
}

/// Picks the form of a moment that is not ambiguous next to `this_year`.
pub fn stamp(local: Option<LocalTime>, this_year: i32) -> (r: String)
    ensures
        r@ == stamp_text(local, this_year),
{
    match local {
        Some(t) => if t.year == this_year {
            t.with_time
        } else {
            t.with_year
        },
        None => String::new(),
    }
}

/// The text is the stamp of a moment, in some time zone and seen from some year.
pub open spec fn is_stamp(text: Seq<char>, unix: i64) -> bool {
    exists|local: Option<LocalTime>, year: i32|
        local_fits(local, unix) && year >= 1969 && text == #[trigger] stamp_text(local, year)
}

/// A moment in the calendar always has a stamp, and no other has one.
pub proof fn law_dated_moments_have_stamps(text: Seq<char>, unix: i64)
    requires
        is_stamp(text, unix),
    ensures
        text.len() > 0 <==> dated(unix),
{
    let (local, year) = choose|local: Option<LocalTime>, year: i32|
        local_fits(local, unix) && year >= 1969 && text == #[trigger] stamp_text(local, year);
    if let Some(t) = local {
        let (secs, month, day, hour, minute) = choose|
            secs: int,
            month: int,
            day: int,
            hour: int,
            minute: int,
        |
            {
                &&& #[trigger] is_civil(secs, t.year as int, month, day, hour, minute)
                &&& unix - 86_400 < secs < unix + 86_400
                &&& t.with_time@ == decimal(day as nat) + " "@ + short_month(month) + " "@
                    + time_text(hour, minute)
                &&& t.with_year@ == decimal(day as nat) + " "@ + short_month(month) + " "@
                    + year_text(t.year as int)
            };
        lemma_decimal_shape(day as nat);
    }
}

/// The local day of a moment, with the year where it is not this year. Nothing
/// where the moment is outside the calendar.
pub fn day_stamp(unix: i64) -> (r: String)
    ensures
        is_stamp(r@, unix),
        r@.len() > 0 <==> dated(unix),
{
    let local = local_time(unix);
    let year: i32 = local_year();
    let ghost l = local;
    let r = stamp(local, year);
    assert(r@ == stamp_text(l, year));
    proof {
        law_dated_moments_have_stamps(r@, unix);
    }
    r
}

/// A moment of this year shows its time of day, and one of another year shows the
/// year.
pub proof fn law_stamps_are_not_ambiguous(t: LocalTime, this_year: i32)
    ensures
        t.year == this_year ==> stamp_text(Some(t), this_year) == t.with_time@,
        t.year != this_year ==> stamp_text(Some(t), this_year) == t.with_year@,
        stamp_text(None, this_year).len() == 0,
{
}

/// The calendar: a year has 366 days where it is a leap year and 365 otherwise, its
/// months make it up, and the count starts with 1970, on a Thursday.
pub proof fn law_the_calendar(year: int, secs: int)
    ensures
        days_before_year(year + 1) - days_before_year(year) == (if is_leap(year) {
            366int
        } else {
            365
        }),
        days_before_month(year, 13) == (if is_leap(year) {
            366int
        } else {
            365
        }),
        days_before_year(1970) == 0,
        is_leap(year) <==> year % 400 == 0 || (year % 4 == 0 && year % 100 != 0),
        month_length(year, 2) == (if is_leap(year) {
            29int
        } else {
            28
        }),
        month_length(year, 1) == 31 && month_length(year, 4) == 30 && month_length(year, 12) == 31,
        0 <= secs < 86_400 ==> weekday_name(secs) == "Thursday"@,
        is_civil(0, 1970, 1, 1, 0, 0),
{
    reveal_with_fuel(days_before_month, 14);
    assert(days_before_month(1970, 1) == 0);
}

/// A time of day has two digits on either side of its colon.
pub proof fn law_times_of_day(hour: int, minute: int)
    requires
        0 <= hour < 24,
        0 <= minute < 60,
    ensures
        time_text(hour, minute).len() == 5,
        time_text(hour, minute)[2] == ':',
        hour < 10 ==> time_text(hour, minute)[0] == '0',
        minute < 10 ==> time_text(hour, minute)[3] == '0',
        hour >= 10 ==> time_text(hour, minute).take(2) == decimal(hour as nat),
        minute >= 10 ==> time_text(hour, minute).skip(3) == decimal(minute as nat),
{
    reveal_strlit(":");
    reveal_with_fuel(decimal, 3);
    assert(padded(hour as nat, 2).len() == 2);
    assert(padded(minute as nat, 2).len() == 2);
    if hour >= 10 {
        assert(time_text(hour, minute).take(2) =~= decimal(hour as nat));
    }
    if minute >= 10 {
        assert(time_text(hour, minute).skip(3) =~= decimal(minute as nat));
    }
}

/// The days of the week follow each other, and after seven of them they begin again.
pub proof fn law_days_of_the_week(secs: int)
    ensures
        weekday_name(secs + 7 * 86_400) == weekday_name(secs),
        weekday_name(secs) == "Monday"@ ==> weekday_name(secs + 86_400) == "Tuesday"@,
        weekday_name(secs) == "Tuesday"@ ==> weekday_name(secs + 86_400) == "Wednesday"@,
        weekday_name(secs) == "Wednesday"@ ==> weekday_name(secs + 86_400) == "Thursday"@,
        weekday_name(secs) == "Thursday"@ ==> weekday_name(secs + 86_400) == "Friday"@,
        weekday_name(secs) == "Friday"@ ==> weekday_name(secs + 86_400) == "Saturday"@,
        weekday_name(secs) == "Saturday"@ ==> weekday_name(secs + 86_400) == "Sunday"@,
        weekday_name(secs) == "Sunday"@ ==> weekday_name(secs + 86_400) == "Monday"@,
{
    reveal_strlit("Monday");
    reveal_strlit("Tuesday");
    reveal_strlit("Wednesday");
    reveal_strlit("Thursday");
    reveal_strlit("Friday");
    reveal_strlit("Saturday");
    reveal_strlit("Sunday");
    assert("Monday"@[0] == 'M' && "Monday"@.len() == 6);
    assert("Tuesday"@[0] == 'T' && "Tuesday"@.len() == 7);
    assert("Wednesday"@.len() == 9);
    assert("Thursday"@[0] == 'T' && "Thursday"@.len() == 8);
    assert("Friday"@[0] == 'F' && "Friday"@.len() == 6);
    assert("Saturday"@[0] == 'S' && "Saturday"@.len() == 8);
    assert("Sunday"@[0] == 'S' && "Sunday"@.len() == 6);
    let n = secs / 86_400;
    assert((secs + 86_400) / 86_400 == n + 1);
    assert((secs + 7 * 86_400) / 86_400 == n + 7);
}

} // verus!
