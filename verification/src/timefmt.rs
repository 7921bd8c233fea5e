//! Times as the lists show them.
//!
//! A time is turned into words by comparing its calendar fields in the local
//! time zone with those of the present moment. Both readings come from the
//! clock; what is made of them is stated here exactly.

use crate::text::{decimal, decimal_string, two_digit_string, two_digits};
use chrono::{Datelike, Timelike};
use vstd::prelude::*;

verus! {

/// An instant as the local calendar and clock show it.
#[derive(Clone, Copy, Debug, PartialEq, Eq, Structural)]
pub struct LocalTime {
    pub year: i32,
    /// 1 to 12.
    pub month: u32,
    /// 1 to 31.
    pub day: u32,
    /// 0 to 23.
    pub hour: u32,
    /// 0 to 59.
    pub minute: u32,
    /// Days of the proleptic Gregorian calendar, counted from 1 January of
    /// year 1 as day 1.
    pub day_number: i32,
    /// Milliseconds since the Unix epoch.
    pub unix_millis: i64,
}

impl LocalTime {
    /// The fields are those of a calendar date and a time of day.
    pub open spec fn valid(self) -> bool {
        &&& 1 <= self.month <= 12
        &&& 1 <= self.day <= 31
        &&& self.hour <= 23
        &&& self.minute <= 59
    }
}

/// The last millisecond, counted from the Unix epoch, that the calendar
/// reaches: the end of 31 December of the year 262142.
pub const MAX_CALENDAR_MILLIS: i64 = 8_210_266_876_799_999;

/// `chrono::DateTime::<Utc>::from_timestamp_millis` followed by
/// `with_timezone(&Local)`, read out field by field.
///
/// chrono represents the instants of the years -262143 to 262142, so an
/// instant at or after the epoch has a reading exactly up to
/// `MAX_CALENDAR_MILLIS`; of instants before the epoch nothing is stated
/// here. The reading is of the instant asked for: chrono's
/// `timestamp_millis` gives the argument back. The calendar fields depend
/// on the time zone of the machine; stated are only the ranges that chrono
/// documents for them. chrono panics on a machine whose time zone data
/// give no offset for the instant.
#[verifier::external_body]
pub(crate) fn local_time_of(unix_millis: i64) -> (time: Option<LocalTime>)
    ensures
        time is Some ==> time->0.valid() && time->0.unix_millis == unix_millis,
        unix_millis >= 0 ==> (time is Some <==> unix_millis <= MAX_CALENDAR_MILLIS),
{
    let utc = chrono::DateTime::<chrono::Utc>::from_timestamp_millis(unix_millis)?;
    let t = utc.with_timezone(&chrono::Local);
    Some(
        LocalTime {
            year: t.year(),
            month: t.month(),
            day: t.day(),
            hour: t.hour(),
            minute: t.minute(),
            day_number: t.num_days_from_ce(),
            unix_millis: t.timestamp_millis(),
        },
    )
}

/// `chrono::Local::now`, read out field by field. The reading depends on the
/// clock and the time zone of the machine; stated are only the ranges that
/// chrono documents for the fields. chrono panics on a machine whose clock
/// stands before the Unix epoch or whose time zone data give no offset.
#[verifier::external_body]
pub(crate) fn local_now() -> (now: LocalTime)
    ensures
        now.valid(),
{
    let t = chrono::Local::now();
    LocalTime {
        year: t.year(),
        month: t.month(),
        day: t.day(),
        hour: t.hour(),
        minute: t.minute(),
        day_number: t.num_days_from_ce(),
        unix_millis: t.timestamp_millis(),
    }
}

/// The English name of a month, 1 for January; December for any number
/// that is no earlier month.
pub open spec fn month_name(month: u32) -> Seq<char> {
    if month == 1 {
        "January"@
    } else if month == 2 {
        "February"@
    } else if month == 3 {
        "March"@
    } else if month == 4 {
        "April"@
    } else if month == 5 {
        "May"@
    } else if month == 6 {
        "June"@
    } else if month == 7 {
        "July"@
    } else if month == 8 {
        "August"@
    } else if month == 9 {
        "September"@
    } else if month == 10 {
        "October"@
    } else if month == 11 {
        "November"@
    } else {
        "December"@
    }
}

/// The three-letter name of a month.
pub open spec fn month_abbreviation(month: u32) -> Seq<char> {
    if month == 1 {
        "Jan"@
    } else if month == 2 {
        "Feb"@
    } else if month == 3 {
        "Mar"@
    } else if month == 4 {
        "Apr"@
    } else if month == 5 {
        "May"@
    } else if month == 6 {
        "Jun"@
    } else if month == 7 {
        "Jul"@
    } else if month == 8 {
        "Aug"@
    } else if month == 9 {
        "Sep"@
    } else if month == 10 {
        "Oct"@
    } else if month == 11 {
        "Nov"@
    } else {
        "Dec"@
    }
}

/// `n` written in decimal, with `-` in front when negative.
pub open spec fn signed_decimal(n: int) -> Seq<char> {
    if n < 0 {
        seq!['-'] + decimal((-n) as nat)
    } else {
        decimal(n as nat)
    }
}

/// The last two digits of a year, without its sign.
pub open spec fn short_year(year: i32) -> nat {
    (if year < 0 {
        -year
    } else {
        year as int
    } % 100) as nat
}

/// Both readings fall on the same local calendar day.
pub open spec fn same_day(a: LocalTime, b: LocalTime) -> bool {
    a.year == b.year && a.month == b.month && a.day == b.day
}

/// The time of day as `HH:MM`.
pub open spec fn clock_text(time: LocalTime) -> Seq<char> {
    two_digits(time.hour as nat) + seq![':'] + two_digits(time.minute as nat)
}

/// How long ago `time` was, seen from `now`, in the words of the
/// conversation list.
///
/// Less than a minute is `Now`; less than an hour is the number of whole
/// minutes and `m ago`; the same day is the time of day; the same year is
/// day and short month; anything else is `D/MM/YY`.
pub open spec fn human_timestamp(time: LocalTime, now: LocalTime) -> Seq<char> {
    let elapsed = now.unix_millis - time.unix_millis;
    if elapsed < 60_000 {
        "Now"@
    } else if elapsed < 3_600_000 {
        decimal((elapsed / 60_000) as nat) + "m ago"@
    } else if same_day(time, now) {
        clock_text(time)
    } else if now.year == time.year {
        decimal(time.day as nat) + seq![' '] + month_abbreviation(time.month)
    } else {
        decimal(time.day as nat) + seq!['/'] + two_digits(time.month as nat) + seq!['/']
            + two_digits(short_year(time.year))
    }
}

/// The heading of the day of `time`, seen from `now`: `Today`, `Yesterday`,
/// or day and month, with the year when it is not the present one.
pub open spec fn section_date(time: LocalTime, now: LocalTime) -> Seq<char> {
    if same_day(time, now) {
        "Today"@
    } else if now.day_number - 1 == time.day_number {
        "Yesterday"@
    } else if now.year == time.year {
        decimal(time.day as nat) + seq![' '] + month_name(time.month)
    } else {
        decimal(time.day as nat) + seq![' '] + month_name(time.month) + seq![' ']
            + signed_decimal(time.year as int)
    }
}

/// The name of a month.
pub fn month_name_of(month: u32) -> (name: &'static str)
    ensures
        name@ == month_name(month),
{
    if month == 1 {
        "January"
    } else if month == 2 {
        "February"
    } else if month == 3 {
        "March"
    } else if month == 4 {
        "April"
    } else if month == 5 {
        "May"
    } else if month == 6 {
        "June"
    } else if month == 7 {
        "July"
    } else if month == 8 {
        "August"
    } else if month == 9 {
        "September"
    } else if month == 10 {
        "October"
    } else if month == 11 {
        "November"
    } else {
        "December"
    }
}

/// The three-letter name of a month.
pub fn month_abbreviation_of(month: u32) -> (name: &'static str)
    ensures
        name@ == month_abbreviation(month),
{
    if month == 1 {
        "Jan"
    } else if month == 2 {
        "Feb"
    } else if month == 3 {
        "Mar"
    } else if month == 4 {
        "Apr"
    } else if month == 5 {
        "May"
    } else if month == 6 {
        "Jun"
    } else if month == 7 {
        "Jul"
    } else if month == 8 {
        "Aug"
    } else if month == 9 {
        "Sep"
    } else if month == 10 {
        "Oct"
    } else if month == 11 {
        "Nov"
    } else {
        "Dec"
    }
}

/// `n` written in decimal with its sign.
pub fn signed_decimal_string(n: i32) -> (text: String)
    ensures
        text@ == signed_decimal(n as int),
{
    if n < 0 {
        let magnitude: u64 = (-(n as i64)) as u64;
        let mut text = String::new();
        text.push('-');
        text.append(decimal_string(magnitude).as_str());
        assert(text@ =~= seq!['-'] + decimal((-n) as nat));
        text
    } else {
        decimal_string(n as u64)
    }
}

/// The time of day as `HH:MM`.
pub fn clock_string(time: &LocalTime) -> (text: String)
    ensures
        text@ == clock_text(*time),
{
    let mut text = two_digit_string(time.hour as u64);
    text.push(':');
    text.append(two_digit_string(time.minute as u64).as_str());
    text
}

/// The words of the conversation list for `time`, seen from `now`.
pub fn human_timestamp_text(time: &LocalTime, now: &LocalTime) -> (text: String)
    ensures
        text@ == human_timestamp(*time, *now),
{
    let elapsed: i128 = now.unix_millis as i128 - time.unix_millis as i128;
    if elapsed < 60_000 {
        "Now".to_owned()
    } else if elapsed < 3_600_000 {
        let minutes: u64 = (elapsed / 60_000) as u64;
        let mut text = decimal_string(minutes);
        text.append("m ago");
        text
    } else if time.year == now.year && time.month == now.month && time.day == now.day {
        clock_string(time)
    } else if now.year == time.year {
        let mut text = decimal_string(time.day as u64);
        text.push(' ');
        text.append(month_abbreviation_of(time.month));
        text
    } else {
        let magnitude: i64 = if time.year < 0 {
            -(time.year as i64)
        } else {
            time.year as i64
        };
        let mut text = decimal_string(time.day as u64);
        text.push('/');
        text.append(two_digit_string(time.month as u64).as_str());
        text.push('/');
        text.append(two_digit_string((magnitude % 100) as u64).as_str());
        text
    }
}

/// The time of day of `time`, as the message rows show it.
pub fn message_time_text(time: &LocalTime) -> (text: String)
    ensures
        text@ == clock_text(*time),
{
    clock_string(time)
}

/// The day heading for `time`, seen from `now`.
pub fn section_date_text(time: &LocalTime, now: &LocalTime) -> (text: String)
    ensures
        text@ == section_date(*time, *now),
{
    if time.year == now.year && time.month == now.month && time.day == now.day {
        "Today".to_owned()
    } else if now.day_number as i64 - 1 == time.day_number as i64 {
        "Yesterday".to_owned()
    } else {
        let mut text = decimal_string(time.day as u64);
        text.push(' ');
        text.append(month_name_of(time.month));
        if now.year != time.year {
            text.push(' ');
            text.append(signed_decimal_string(time.year).as_str());
        }
        text
    }
}

/// Whether a time, given in microseconds since the Unix epoch, has a local
/// reading: it lies after the epoch and within the calendar.
pub open spec fn has_reading(timestamp_micros: i64) -> bool {
    0 < timestamp_micros && timestamp_micros / 1000 <= MAX_CALENDAR_MILLIS
}

/// `time` is a local reading of the millisecond in which the time
/// `timestamp_micros` falls.
pub open spec fn reads(time: LocalTime, timestamp_micros: i64) -> bool {
    time.valid() && time.unix_millis == timestamp_micros / 1000
}

/// `words` are the words of the conversation list for the time
/// `timestamp_micros`: empty exactly for a time without a reading, and
/// else what a reading of that time and one of some moment give.
pub open spec fn in_words(words: Seq<char>, timestamp_micros: i64) -> bool {
    &&& words.len() == 0 <==> !has_reading(timestamp_micros)
    &&& has_reading(timestamp_micros) ==> exists|time: LocalTime, now: LocalTime|
        reads(time, timestamp_micros) && now.valid() && words == human_timestamp(time, now)
}

/// A number written in decimal has at least one digit.
pub proof fn lemma_decimal_has_digits(n: nat)
    ensures
        decimal(n).len() >= 1,
        two_digits(n).len() >= 2,
    decreases n,
{
    if n >= 10 {
        lemma_decimal_has_digits(n / 10);
    }
}

/// A time put in words is never without words: an empty text stands for a
/// time that has no reading, and for nothing else.
pub proof fn lemma_words_are_not_empty(time: LocalTime, now: LocalTime)
    ensures
        human_timestamp(time, now).len() > 0,
        section_date(time, now).len() > 0,
        clock_text(time).len() > 0,
{
    reveal_strlit("Now");
    reveal_strlit("Today");
    reveal_strlit("Yesterday");
    lemma_decimal_has_digits(time.day as nat);
    lemma_decimal_has_digits(time.hour as nat);
    lemma_decimal_has_digits(((now.unix_millis - time.unix_millis) / 60_000) as nat);
}

/// The local reading of a time given in microseconds since the Unix epoch.
/// A time has one exactly when it lies after the epoch and within the
/// calendar; the reading is of the millisecond in which the time falls.
pub fn reading_of(timestamp_micros: i64) -> (time: Option<LocalTime>)
    ensures
        time is Some <==> has_reading(timestamp_micros),
        time is Some ==> reads(time->0, timestamp_micros),
{
    if timestamp_micros <= 0 {
        return None;
    }
    local_time_of(timestamp_micros / 1000)
}

/// How long ago a time was, in the words of the conversation list, as a
/// local reading of that time and one of the present moment give them;
/// empty exactly for a time that has no reading.
pub fn format_human_timestamp(timestamp_micros: i64) -> (text: String)
    ensures
        in_words(text@, timestamp_micros),
{
    match reading_of(timestamp_micros) {
        None => String::new(),
        Some(time) => {
            let now = local_now();
            proof {
                lemma_words_are_not_empty(time, now);
            }
            human_timestamp_text(&time, &now)
        },
    }
}

/// The time of day of a message, as a local reading of its time gives it;
/// empty exactly for a time that has no reading.
pub fn format_human_message_time(timestamp_micros: i64) -> (text: String)
    ensures
        text@.len() == 0 <==> !has_reading(timestamp_micros),
        has_reading(timestamp_micros) ==> exists|time: LocalTime|
            reads(time, timestamp_micros) && text@ == clock_text(time),
{
    match reading_of(timestamp_micros) {
        None => String::new(),
        Some(time) => {
            proof {
                lemma_words_are_not_empty(time, time);
            }
            message_time_text(&time)
        },
    }
}

/// The day heading of a message, as a local reading of its time and one of
/// the present moment give it; empty exactly for a time that has no
/// reading.
pub fn format_section_date(timestamp_micros: i64) -> (text: String)
    ensures
        text@.len() == 0 <==> !has_reading(timestamp_micros),
        has_reading(timestamp_micros) ==> exists|time: LocalTime, now: LocalTime|
            reads(time, timestamp_micros) && now.valid() && text@ == section_date(time, now),
{
    match reading_of(timestamp_micros) {
        None => String::new(),
        Some(time) => {
            let now = local_now();
            proof {
                lemma_words_are_not_empty(time, now);
            }
            section_date_text(&time, &now)
        },
    }
}

} // verus!
