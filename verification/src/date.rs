//! Liquid's date and date-time scalars, and their legacy `%` formatting.

use crate::datetime::{
    monday_week_of, sunday_week_of, weekday_of, day_of, hour_of, minute_of, month_of, nanosecond_of, offset_hours_of, offset_minutes_of,
    offset_negative_of, offset_of, offset_seconds_of, parts_model, parts_of, second_of, unix_timestamp_of, year_of,
    DateTimeParts,
};
use crate::strftime::{
    abs, div100, div_rem100, hms, hour12, hour12_of, meridiem, meridiem_str, month_abbr,
    month_name, month_name_str, push_abbr, push_hms, rem100, weekday_abbr, weekday_name,
    weekday_name_str, Casing,
};
use crate::text::{
    all_digits, digit_char, digits_value, nat_text, repeat, chars_of, int_text, push_int_text, push_right_aligned, push_str, push_zero_padded,
    right_align, string_of, zero_pad,
};
use vstd::prelude::*;

verus! {

#[verifier::external_type_specification]
#[verifier::external_body]
pub struct ExFmtError(std::fmt::Error);

/// `fmt::Error::default()`: the formatting error.
#[verifier::external_body]
fn format_error() -> (r: std::fmt::Error) {
    std::fmt::Error::default()
}

/// Whether `ts` is given at the UTC offset.
pub open spec fn is_utc(ts: time::OffsetDateTime) -> bool {
    &&& offset_hours_of(offset_of(ts)) == 0
    &&& offset_minutes_of(offset_of(ts)) == 0
    &&& offset_seconds_of(offset_of(ts)) == 0
    &&& !offset_negative_of(offset_of(ts))
}

/// `OffsetDateTime::now_utc`: the current moment, documented as given in
/// UTC. Which moment it is depends on the clock and is left unstated.
#[verifier::external_body]
fn now_utc() -> (r: time::OffsetDateTime)
    ensures
        is_utc(r),
{
    time::OffsetDateTime::now_utc()
}

/// Whether `ts` is `1970-01-01 00:00:00 UTC`.
pub open spec fn is_unix_epoch(ts: time::OffsetDateTime) -> bool {
    &&& unix_timestamp_of(ts) == 0
    &&& year_of(ts) == 1970 && month_of(ts) == 1 && day_of(ts) == 1
    &&& hour_of(ts) == 0 && minute_of(ts) == 0 && second_of(ts) == 0 && nanosecond_of(ts) == 0
    &&& offset_hours_of(offset_of(ts)) == 0 && offset_minutes_of(offset_of(ts)) == 0
        && offset_seconds_of(offset_of(ts)) == 0
}

/// `OffsetDateTime::UNIX_EPOCH`: documented as `1970-01-01 0:00 UTC`.
#[verifier::external_body]
fn unix_epoch() -> (r: time::OffsetDateTime)
    ensures
        is_unix_epoch(r),
{
    time::OffsetDateTime::UNIX_EPOCH
}

/// What `OffsetDateTime::date` returns: the date in the stored offset.
pub uninterp spec fn date_part_of(ts: time::OffsetDateTime) -> time::Date;

/// `OffsetDateTime::replace_date`: the given date, with the time and the
/// offset unchanged (built by `new_in_offset(date, self.time(),
/// self.offset())`).
#[verifier::external_body]
fn replace_date(ts: time::OffsetDateTime, date: time::Date) -> (r: time::OffsetDateTime)
    ensures
        date_part_of(r) == date,
        hour_of(r) == hour_of(ts),
        minute_of(r) == minute_of(ts),
        second_of(r) == second_of(ts),
        nanosecond_of(r) == nanosecond_of(ts),
        offset_of(r) == offset_of(ts),
{
    ts.replace_date(date)
}

/// `OffsetDateTime::date`: the date in the stored offset.
#[verifier::external_body]
fn date_of(ts: time::OffsetDateTime) -> (r: time::Date)
    ensures
        r == date_part_of(ts),
{
    ts.date()
}

/// What `Date::year` returns for a date.
pub uninterp spec fn date_year_of(d: time::Date) -> int;

/// What `Date::month` returns for a date, as its number.
pub uninterp spec fn date_month_of(d: time::Date) -> int;

/// What `Date::day` returns for a date.
pub uninterp spec fn date_day_of(d: time::Date) -> int;

/// What `Date::ordinal` returns for a date.
pub uninterp spec fn date_ordinal_of(d: time::Date) -> int;

/// What `Date::iso_week` returns for a date.
pub uninterp spec fn date_iso_week_of(d: time::Date) -> int;

/// `Date::year`: bounded by the crate to `±999_999`.
#[verifier::external_body]
fn date_year(d: &time::Date) -> (r: i32)
    ensures
        r == date_year_of(*d),
        -999_999 <= r <= 999_999,
{
    d.year()
}

/// `Date::month`, as its number (`Month` is `repr(u8)`, January = 1).
#[verifier::external_body]
fn date_month(d: &time::Date) -> (r: u8)
    ensures
        r == date_month_of(*d),
        1 <= r <= 12,
{
    d.month() as u8
}

/// `Date::day`: documented to be in `1..=31`.
#[verifier::external_body]
fn date_day(d: &time::Date) -> (r: u8)
    ensures
        r == date_day_of(*d),
        1 <= r <= 31,
{
    d.day()
}

/// `Date::ordinal`: documented to be in `1..=366`.
#[verifier::external_body]
fn date_ordinal(d: &time::Date) -> (r: u16)
    ensures
        r == date_ordinal_of(*d),
        1 <= r <= 366,
{
    d.ordinal()
}

/// `Date::iso_week`: documented to be in `1..=53`.
#[verifier::external_body]
fn date_iso_week(d: &time::Date) -> (r: u8)
    ensures
        r == date_iso_week_of(*d),
        1 <= r <= 53,
{
    d.iso_week()
}

/// Whether `y` is a leap year of the proleptic Gregorian calendar.
pub open spec fn is_leap_year(y: int) -> bool {
    y % 4 == 0 && (y % 100 != 0 || y % 400 == 0)
}

/// The number of days of month `m` of year `y`.
pub open spec fn days_in_month(y: int, m: int) -> int {
    if m == 2 {
        if is_leap_year(y) {
            29
        } else {
            28
        }
    } else if m == 4 || m == 6 || m == 9 || m == 11 {
        30
    } else {
        31
    }
}

/// Whether a year, month and day name a date that `time` represents (years
/// `-9999..=9999`).
pub open spec fn valid_ymd(year: int, month: int, day: int) -> bool {
    -9999 <= year <= 9999 && 1 <= month <= 12 && 1 <= day <= days_in_month(year, month)
}

/// `Month::try_from` and `Date::from_calendar_date`: the date of that year,
/// month and day, which exists exactly for the valid ones.
#[verifier::external_body]
fn from_calendar_date(year: i32, month: u8, day: u8) -> (r: Option<time::Date>)
    ensures
        r is Some <==> valid_ymd(year as int, month as int, day as int),
        r matches Some(d) ==> date_year_of(d) == year && date_month_of(d) == month
            && date_day_of(d) == day,
{
    let month = time::Month::try_from(month).ok()?;
    time::Date::from_calendar_date(year, month, day).ok()
}

/// What `OffsetDateTime::parse` gives for a text and a format description
/// (read as a version 1 description, as `format_description!` reads it).
pub uninterp spec fn parsed_date_time(text: Seq<char>, description: Seq<char>) -> Option<
    time::OffsetDateTime,
>;

/// What `Date::parse` gives for a text and a format description (version 1).
pub uninterp spec fn parsed_date(text: Seq<char>, description: Seq<char>) -> Option<time::Date>;

/// What `OffsetDateTime::format` gives for a format description (version 1).
pub uninterp spec fn formatted_date_time(ts: time::OffsetDateTime, description: Seq<char>) -> Option<
    Seq<char>,
>;

/// What `Date::format` gives for a format description (version 1).
pub uninterp spec fn formatted_date(d: time::Date, description: Seq<char>) -> Option<Seq<char>>;

/// What `OffsetDateTime::checked_to_offset` gives: the same moment in
/// another offset, where its date is in range.
pub uninterp spec fn converted_to_offset(ts: time::OffsetDateTime, offset: time::UtcOffset) -> Option<
    time::OffsetDateTime,
>;

/// `format_description::parse_borrowed::<1>` and `OffsetDateTime::parse`:
/// `None` where the description or the text does not parse.
#[verifier::external_body]
fn parse_date_time_as(text: &str, description: &str) -> (r: Option<time::OffsetDateTime>)
    ensures
        r == parsed_date_time(text@, description@),
{
    let items = time::format_description::parse_borrowed::<1>(description).ok()?;
    time::OffsetDateTime::parse(text, &items).ok()
}

/// `format_description::parse_borrowed::<1>` and `Date::parse`.
#[verifier::external_body]
fn parse_date_as(text: &str, description: &str) -> (r: Option<time::Date>)
    ensures
        r == parsed_date(text@, description@),
{
    let items = time::format_description::parse_borrowed::<1>(description).ok()?;
    time::Date::parse(text, &items).ok()
}

/// `format_description::parse_borrowed::<1>` and `OffsetDateTime::format`.
#[verifier::external_body]
fn format_date_time_as(ts: time::OffsetDateTime, description: &str) -> (r: Option<String>)
    ensures
        r matches Some(t) ==> formatted_date_time(ts, description@) == Some(t@),
        r is None ==> formatted_date_time(ts, description@) is None,
{
    let items = time::format_description::parse_borrowed::<1>(description).ok()?;
    ts.format(&items).ok()
}

/// `format_description::parse_borrowed::<1>` and `Date::format`.
#[verifier::external_body]
fn format_date_as(d: time::Date, description: &str) -> (r: Option<String>)
    ensures
        r matches Some(t) ==> formatted_date(d, description@) == Some(t@),
        r is None ==> formatted_date(d, description@) is None,
{
    let items = time::format_description::parse_borrowed::<1>(description).ok()?;
    d.format(&items).ok()
}

/// `t` is the moment `ts` names, seen at `offset`.
pub open spec fn same_instant_in(
    t: time::OffsetDateTime,
    ts: time::OffsetDateTime,
    offset: time::UtcOffset,
) -> bool {
    &&& offset_of(t) == offset
    &&& unix_timestamp_of(t) == unix_timestamp_of(ts)
    &&& nanosecond_of(t) == nanosecond_of(ts)
}

/// `OffsetDateTime::checked_to_offset`: a result is the same moment at the
/// new offset, and a value already at that offset comes back unchanged.
/// Which dates fall out of range is left to the name.
#[verifier::external_body]
fn checked_to_offset(ts: time::OffsetDateTime, offset: time::UtcOffset) -> (r: Option<
    time::OffsetDateTime,
>)
    ensures
        r == converted_to_offset(ts, offset),
        offset_of(ts) == offset ==> r == Some(ts),
        r matches Some(t) ==> same_instant_in(t, ts, offset),
{
    ts.checked_to_offset(offset)
}

/// The format a date-time is displayed and serialized in.
pub open spec fn date_time_format() -> Seq<char> {
    "[year]-[month]-[day] [hour]:[minute]:[second] [offset_hour sign:mandatory][offset_minute]"@
}

/// The format a date is displayed and serialized in.
pub open spec fn date_format() -> Seq<char> {
    "[year]-[month]-[day]"@
}

/// The date-time a user's text names, trying `01 March 2022 10:00:00
/// +0100`, then `01 Mar 2022 10:00:00 +0100`, then the display format.
pub open spec fn user_date_time(text: Seq<char>) -> Option<time::OffsetDateTime> {
    let long = parsed_date_time(
        text,
        "[day] [month repr:long] [year] [hour]:[minute]:[second] [offset_hour sign:mandatory][offset_minute]"@,
    );
    let short = parsed_date_time(
        text,
        "[day] [month repr:short] [year] [hour]:[minute]:[second] [offset_hour sign:mandatory][offset_minute]"@,
    );
    if long is Some {
        long
    } else if short is Some {
        short
    } else {
        parsed_date_time(text, date_time_format())
    }
}

/// The date a user's text names, trying `01 March 2022`, then `01 Mar
/// 2022`, then `2022-03-01`.
pub open spec fn user_date(text: Seq<char>) -> Option<time::Date> {
    let long = parsed_date(text, "[day] [month repr:long] [year]"@);
    let short = parsed_date(text, "[day] [month repr:short] [year]"@);
    if long is Some {
        long
    } else if short is Some {
        short
    } else {
        parsed_date(text, date_format())
    }
}

/// The date-time `text` names: the current moment for `now`, else the first
/// of the accepted formats that reads it.
pub fn parse_date_time(text: &str) -> (r: Option<time::OffsetDateTime>)
    ensures
        text@ == "now"@ ==> (r matches Some(ts) && is_utc(ts)),
        text@ != "now"@ ==> r == user_date_time(text@),
{
    if crate::text::str_eq(text, "now") {
        return Some(now_utc());
    }
    let long = parse_date_time_as(
        text,
        "[day] [month repr:long] [year] [hour]:[minute]:[second] [offset_hour sign:mandatory][offset_minute]",
    );
    if long.is_some() {
        return long;
    }
    let short = parse_date_time_as(
        text,
        "[day] [month repr:short] [year] [hour]:[minute]:[second] [offset_hour sign:mandatory][offset_minute]",
    );
    if short.is_some() {
        return short;
    }
    parse_date_time_as(
        text,
        "[year]-[month]-[day] [hour]:[minute]:[second] [offset_hour sign:mandatory][offset_minute]",
    )
}

/// The date `text` names: today's date in UTC for `today`, else the first of
/// the accepted formats that reads it.
pub fn parse_date(text: &str) -> (r: Option<time::Date>)
    ensures
        text@ == "today"@ ==> exists|ts: time::OffsetDateTime|
            is_utc(ts) && r == Some(#[trigger] date_part_of(ts)),
        text@ != "today"@ ==> r == user_date(text@),
{
    if crate::text::str_eq(text, "today") {
        return Some(date_of(now_utc()));
    }
    let long = parse_date_as(text, "[day] [month repr:long] [year]");
    if long.is_some() {
        return long;
    }
    let short = parse_date_as(text, "[day] [month repr:short] [year]");
    if short.is_some() {
        return short;
    }
    parse_date_as(text, "[year]-[month]-[day]")
}

/// The text of a legacy `%` directive, `None` for an unsupported one.
pub open spec fn legacy_directive(p: DateTimeParts, c: char) -> Option<Seq<char>> {
    if c == 'Y' {
        Some(zero_pad(p.year as int, 4))
    } else if c == 'C' {
        Some(zero_pad(div100(p.year as int), 2))
    } else if c == 'y' {
        Some(zero_pad(rem100(p.year as int), 2))
    } else if c == 'm' {
        Some(zero_pad(p.month as int, 2))
    } else if c == 'b' || c == 'h' {
        Some(month_abbr(p.month as int))
    } else if c == 'B' {
        Some(month_name(p.month as int))
    } else if c == 'd' {
        Some(zero_pad(p.day as int, 2))
    } else if c == 'e' {
        Some(right_align(int_text(p.day as int), 2))
    } else if c == 'a' {
        Some(weekday_abbr(p.weekday as int))
    } else if c == 'A' {
        Some(weekday_name(p.weekday as int))
    } else if c == 'w' {
        Some(int_text((p.weekday + 1) % 7))
    } else if c == 'u' {
        Some(int_text(p.weekday + 1))
    } else if c == 'U' {
        Some(zero_pad(p.sunday_week as int, 2))
    } else if c == 'W' {
        Some(zero_pad(p.monday_week as int, 2))
    } else if c == 'G' {
        Some(zero_pad(p.iso_year as int, 4))
    } else if c == 'g' {
        Some(zero_pad(rem100(p.iso_year as int), 2))
    } else if c == 'V' {
        Some(zero_pad(p.iso_week as int, 2))
    } else if c == 'j' {
        Some(zero_pad(p.ordinal as int, 3))
    } else if c == 'D' || c == 'x' {
        Some(
            zero_pad(p.month as int, 2) + seq!['/'] + zero_pad(p.day as int, 2) + seq!['/']
                + zero_pad(rem100(p.year as int), 2),
        )
    } else if c == 'F' {
        Some(
            zero_pad(p.year as int, 4) + seq!['-'] + zero_pad(p.month as int, 2) + seq!['-']
                + zero_pad(p.day as int, 2),
        )
    } else if c == 'v' {
        Some(
            right_align(int_text(p.day as int), 2) + seq!['-'] + month_abbr(p.month as int)
                + seq!['-'] + zero_pad(p.year as int, 4),
        )
    } else if c == 'H' {
        Some(zero_pad(p.hour as int, 2))
    } else if c == 'k' {
        Some(right_align(int_text(p.hour as int), 2))
    } else if c == 'I' {
        Some(zero_pad(hour12(p.hour as int), 2))
    } else if c == 'l' {
        Some(right_align(int_text(hour12(p.hour as int)), 2))
    } else if c == 'P' {
        Some(meridiem(p, 'p', Casing::Change))
    } else if c == 'p' {
        Some(meridiem(p, 'p', Casing::Default))
    } else if c == 'M' {
        Some(zero_pad(p.minute as int, 2))
    } else if c == 'S' {
        Some(zero_pad(p.second as int, 2))
    } else if c == 'L' {
        Some(zero_pad(p.millisecond as int, 3))
    } else if c == 'R' {
        Some(zero_pad(p.hour as int, 2) + seq![':'] + zero_pad(p.minute as int, 2))
    } else if c == 'T' || c == 'X' {
        Some(hms(p))
    } else if c == 'r' {
        Some(
            zero_pad(hour12(p.hour as int), 2) + seq![':'] + zero_pad(p.minute as int, 2)
                + seq![':'] + zero_pad(p.second as int, 2) + seq![' '] + meridiem(
                p,
                'p',
                Casing::Default,
            ),
        )
    } else if c == 'Z' || c == 'z' {
        Some(offset_text(p, c == 'Z'))
    } else if c == 'c' {
        Some(
            weekday_abbr(p.weekday as int) + seq![' '] + month_abbr(p.month as int) + seq![' ']
                + int_text(p.day as int) + seq![' '] + hms(p) + seq![' '] + zero_pad(
                p.year as int,
                4,
            ),
        )
    } else if c == '+' {
        Some(
            zero_pad(p.year as int, 4) + seq!['-'] + zero_pad(p.month as int, 2) + seq!['-']
                + zero_pad(p.day as int, 2) + seq![' '] + hms(p) + offset_text(p, true),
        )
    } else if c == 's' {
        Some(int_text(p.unix_timestamp as int))
    } else if c == 't' {
        Some(seq!['\t'])
    } else if c == 'n' {
        Some(seq!['\n'])
    } else if c == '%' {
        Some(seq!['%'])
    } else {
        None
    }
}

/// `+hh:mm` (or `+hhmm`): the UTC offset.
#[verifier::opaque]
pub open spec fn offset_text(p: DateTimeParts, colon: bool) -> Seq<char> {
    seq![
        if p.offset_negative {
            '-'
        } else {
            '+'
        },
    ] + zero_pad(abs(p.offset_hours as int), 2) + (if colon {
        seq![':']
    } else {
        Seq::empty()
    }) + zero_pad(abs(p.offset_minutes as int), 2)
}

/// Legacy formatting of `fmt[i..]`.
pub open spec fn legacy_from(p: DateTimeParts, fmt: Seq<char>, i: int) -> Option<Seq<char>>
    decreases fmt.len() - i,
    when 0 <= i
{
    if i >= fmt.len() {
        Some(Seq::empty())
    } else if fmt[i] != '%' {
        match legacy_from(p, fmt, i + 1) {
            Some(rest) => Some(seq![fmt[i]] + rest),
            None => None,
        }
    } else if i + 1 >= fmt.len() {
        None
    } else {
        match legacy_directive(p, fmt[i + 1]) {
            None => None,
            Some(t) => match legacy_from(p, fmt, i + 2) {
                Some(rest) => Some(t + rest),
                None => None,
            },
        }
    }
}

/// Appends the UTC offset.
fn push_offset(out: &mut Vec<char>, p: &DateTimeParts, colon: bool)
    requires
        p.wf(),
    ensures
        final(out)@ == old(out)@ + offset_text(*p, colon),
{
    let ghost start = out@;
    let ghost sign = seq![if p.offset_negative { '-' } else { '+' }];
    let ghost hh = zero_pad(abs(p.offset_hours as int), 2);
    let ghost sep: Seq<char> = if colon {
        seq![':']
    } else {
        Seq::empty()
    };
    let ghost mm = zero_pad(abs(p.offset_minutes as int), 2);
    out.push(if p.offset_negative { '-' } else { '+' });
    assert(out@ =~= start + sign);
    let h: i64 = p.offset_hours as i64;
    let ah: i64 = if h < 0 { -h } else { h };
    push_zero_padded(out, ah, 2);
    let ghost a1 = out@;
    if colon {
        out.push(':');
    }
    assert(out@ =~= a1 + sep);
    let ghost a2 = out@;
    let m: i64 = p.offset_minutes as i64;
    let am: i64 = if m < 0 { -m } else { m };
    push_zero_padded(out, am, 2);
    assert(offset_text(*p, colon) == sign + hh + sep + mm) by {
        reveal(offset_text);
    }
    assert(out@ =~= start + (sign + hh + sep + mm));
}

/// Appends the text of one numeric legacy directive.
#[verifier::rlimit(40)]
fn push_legacy_number(out: &mut Vec<char>, p: &DateTimeParts, c: char) -> (r: bool)
    requires
        p.wf(),
    ensures
        r ==> (legacy_directive(*p, c) matches Some(t) && final(out)@ == old(out)@ + t),
        !r ==> final(out)@ == old(out)@ && (c == 'Y' || c == 'C' || c == 'y' || c == 'm' || c
            == 'd' || c == 'e' || c == 'w' || c == 'u' || c == 'U' || c == 'W' || c == 'G' || c
            == 'g' || c == 'V' || c == 'j' || c == 'H' || c == 'k' || c == 'I' || c == 'l' || c
            == 'M' || c == 'S' || c == 'L' || c == 's') == false,
{
    if c == 'Y' {
        push_zero_padded(out, p.year as i64, 4);
    } else if c == 'C' {
        push_zero_padded(out, div_rem100(p.year).0, 2);
    } else if c == 'y' {
        push_zero_padded(out, div_rem100(p.year).1, 2);
    } else if c == 'm' {
        push_zero_padded(out, p.month as i64, 2);
    } else if c == 'd' {
        push_zero_padded(out, p.day as i64, 2);
    } else if c == 'e' {
        push_right_aligned(out, p.day as i64, 2);
    } else if c == 'w' {
        push_int_text(out, ((p.weekday + 1) % 7) as i64);
    } else if c == 'u' {
        push_int_text(out, (p.weekday + 1) as i64);
    } else if c == 'U' {
        push_zero_padded(out, p.sunday_week as i64, 2);
    } else if c == 'W' {
        push_zero_padded(out, p.monday_week as i64, 2);
    } else if c == 'G' {
        push_zero_padded(out, p.iso_year as i64, 4);
    } else if c == 'g' {
        push_zero_padded(out, div_rem100(p.iso_year).1, 2);
    } else if c == 'V' {
        push_zero_padded(out, p.iso_week as i64, 2);
    } else if c == 'j' {
        push_zero_padded(out, p.ordinal as i64, 3);
    } else if c == 'H' {
        push_zero_padded(out, p.hour as i64, 2);
    } else if c == 'k' {
        push_right_aligned(out, p.hour as i64, 2);
    } else if c == 'I' {
        push_zero_padded(out, hour12_of(p.hour) as i64, 2);
    } else if c == 'l' {
        push_right_aligned(out, hour12_of(p.hour) as i64, 2);
    } else if c == 'M' {
        push_zero_padded(out, p.minute as i64, 2);
    } else if c == 'S' {
        push_zero_padded(out, p.second as i64, 2);
    } else if c == 'L' {
        push_zero_padded(out, p.millisecond as i64, 3);
    } else if c == 's' {
        push_int_text(out, p.unix_timestamp);
    } else {
        return false;
    }
    true
}

/// Appends the text of one textual or literal legacy directive.
fn push_legacy_text(out: &mut Vec<char>, p: &DateTimeParts, c: char) -> (r: bool)
    requires
        p.wf(),
    ensures
        r ==> (legacy_directive(*p, c) matches Some(t) && final(out)@ == old(out)@ + t),
        !r ==> final(out)@ == old(out)@ && (c == 'b' || c == 'h' || c == 'B' || c == 'a' || c
            == 'A' || c == 'P' || c == 'p' || c == 't' || c == 'n' || c == '%' || c == 'Z' || c
            == 'z') == false,
{
    let ghost start = out@;
    if c == 'b' || c == 'h' {
        push_abbr(out, month_name_str(p.month));
    } else if c == 'B' {
        push_str(out, month_name_str(p.month));
    } else if c == 'a' {
        push_abbr(out, weekday_name_str(p.weekday));
    } else if c == 'A' {
        push_str(out, weekday_name_str(p.weekday));
    } else if c == 'P' {
        push_str(out, meridiem_str(p, 'p', Casing::Change));
    } else if c == 'p' {
        push_str(out, meridiem_str(p, 'p', Casing::Default));
    } else if c == 'Z' || c == 'z' {
        push_offset(out, p, c == 'Z');
    } else if c == 't' || c == 'n' || c == '%' {
        out.push(if c == 't' { '\t' } else if c == 'n' { '\n' } else { '%' });
        assert(out@ =~= start + legacy_directive(*p, c)->0);
    } else {
        return false;
    }
    true
}

/// Appends the text of one composite legacy directive.
#[verifier::rlimit(60)]
fn push_legacy_composite(out: &mut Vec<char>, p: &DateTimeParts, c: char) -> (r: bool)
    requires
        p.wf(),
    ensures
        r ==> (legacy_directive(*p, c) matches Some(t) && final(out)@ == old(out)@ + t),
        !r ==> final(out)@ == old(out)@ && (c == 'D' || c == 'x' || c == 'F' || c == 'v' || c
            == 'R' || c == 'T' || c == 'X' || c == 'r' || c == 'c' || c == '+') == false,
{
    let ghost start = out@;
    let mut v: Vec<char> = Vec::new();
    if c == 'D' || c == 'x' {
        push_zero_padded(&mut v, p.month as i64, 2);
        v.push('/');
        push_zero_padded(&mut v, p.day as i64, 2);
        v.push('/');
        push_zero_padded(&mut v, div_rem100(p.year).1, 2);
        assert(v@ =~= legacy_directive(*p, c)->0);
    } else if c == 'F' {
        push_zero_padded(&mut v, p.year as i64, 4);
        v.push('-');
        push_zero_padded(&mut v, p.month as i64, 2);
        v.push('-');
        push_zero_padded(&mut v, p.day as i64, 2);
        assert(v@ =~= legacy_directive(*p, c)->0);
    } else if c == 'v' {
        push_right_aligned(&mut v, p.day as i64, 2);
        v.push('-');
        push_abbr(&mut v, month_name_str(p.month));
        v.push('-');
        push_zero_padded(&mut v, p.year as i64, 4);
        assert(v@ =~= legacy_directive(*p, c)->0);
    } else if c == 'R' {
        push_zero_padded(&mut v, p.hour as i64, 2);
        v.push(':');
        push_zero_padded(&mut v, p.minute as i64, 2);
        assert(v@ =~= legacy_directive(*p, c)->0);
    } else if c == 'T' || c == 'X' {
        push_hms(&mut v, p);
        assert(v@ =~= legacy_directive(*p, c)->0);
    } else if c == 'r' {
        push_zero_padded(&mut v, hour12_of(p.hour) as i64, 2);
        v.push(':');
        push_zero_padded(&mut v, p.minute as i64, 2);
        v.push(':');
        push_zero_padded(&mut v, p.second as i64, 2);
        v.push(' ');
        push_str(&mut v, meridiem_str(p, 'p', Casing::Default));
        assert(v@ =~= legacy_directive(*p, c)->0);
    } else if c == 'c' {
        push_abbr(&mut v, weekday_name_str(p.weekday));
        v.push(' ');
        push_abbr(&mut v, month_name_str(p.month));
        v.push(' ');
        push_int_text(&mut v, p.day as i64);
        v.push(' ');
        push_hms(&mut v, p);
        v.push(' ');
        push_zero_padded(&mut v, p.year as i64, 4);
        assert(v@ =~= legacy_directive(*p, c)->0);
    } else if c == '+' {
        push_zero_padded(&mut v, p.year as i64, 4);
        v.push('-');
        push_zero_padded(&mut v, p.month as i64, 2);
        v.push('-');
        push_zero_padded(&mut v, p.day as i64, 2);
        v.push(' ');
        push_hms(&mut v, p);
        push_offset(&mut v, p, true);
        assert(v@ =~= legacy_directive(*p, c)->0);
    } else {
        return false;
    }
    crate::text::push_chars(out, v.as_slice());
    true
}

/// Formats `fmt` the legacy way: each `%` and the character after it are
/// replaced by a date or time field; an unsupported character fails.
pub fn legacy_format_parts(p: &DateTimeParts, fmt: &str) -> (r: Result<String, std::fmt::Error>)
    requires
        p.wf(),
    ensures
        match r {
            Ok(s) => legacy_from(*p, fmt@, 0) == Some(s@),
            Err(_) => legacy_from(*p, fmt@, 0) is None,
        },
{
    let f = chars_of(fmt);
    let mut out: Vec<char> = Vec::new();
    let mut i: usize = 0;
    while i < f.len()
        invariant
            i <= f@.len(),
            f@ == fmt@,
            p.wf(),
            match legacy_from(*p, f@, i as int) {
                Some(rest) => legacy_from(*p, f@, 0) == Some(out@ + rest),
                None => legacy_from(*p, f@, 0) is None,
            },
        decreases f@.len() - i,
    {
        let c = f[i];
        if c != '%' {
            proof {
                if let Some(rest) = legacy_from(*p, f@, i + 1) {
                    assert(out@.push(c) + rest =~= out@ + (seq![c] + rest));
                }
            }
            out.push(c);
            i = i + 1;
        } else {
            if i + 1 >= f.len() {
                return Err(format_error());
            }
            let d = f[i + 1];
            let ghost before = out@;
            let done = push_legacy_number(&mut out, p, d) || push_legacy_text(&mut out, p, d)
                || push_legacy_composite(&mut out, p, d);
            if !done {
                return Err(format_error());
            }
            proof {
                let t = legacy_directive(*p, d)->0;
                if let Some(rest) = legacy_from(*p, f@, i + 2) {
                    assert(out@ + rest =~= before + (t + rest));
                }
            }
            i = i + 2;
        }
    }
    assert(out@ + Seq::<char>::empty() =~= out@);
    Ok(string_of(out.as_slice()))
}

/// Liquid's native date-time.
#[derive(Debug, Clone, Copy)]
pub struct DateTime {
    inner: time::OffsetDateTime,
}

/// Liquid's native date.
#[derive(Debug, Clone, Copy)]
pub struct LiquidDate {
    inner: time::Date,
}

impl DateTime {
    /// The wrapped `time` date-time.
    pub closed spec fn spec_inner(&self) -> time::OffsetDateTime {
        self.inner
    }

    /// The date-time `text` names (see [`parse_date_time`]).
    pub fn from_str(text: &str) -> (r: Option<Self>)
        ensures
            text@ == "now"@ ==> (r matches Some(d) && is_utc(d.spec_inner())),
            text@ != "now"@ ==> match r {
                Some(d) => user_date_time(text@) == Some(d.spec_inner()),
                None => user_date_time(text@) is None,
            },
    {
        match parse_date_time(text) {
            Some(inner) => Some(DateTime { inner }),
            None => None,
        }
    }

    /// The same moment in another offset, where its date is in range.
    pub fn checked_with_offset(self, offset: time::UtcOffset) -> (r: Option<Self>)
        ensures
            match r {
                Some(d) => converted_to_offset(self.spec_inner(), offset) == Some(d.spec_inner()),
                None => converted_to_offset(self.spec_inner(), offset) is None,
            },
            r matches Some(d) ==> same_instant_in(d.spec_inner(), self.spec_inner(), offset),
            offset_of(self.spec_inner()) == offset ==> (r matches Some(d) && d.spec_inner()
                == self.spec_inner()),
    {
        match checked_to_offset(self.inner, offset) {
            Some(inner) => Some(DateTime { inner }),
            None => None,
        }
    }

    /// The same moment in another offset; its date must stay in range.
    pub fn with_offset(self, offset: time::UtcOffset) -> (r: Self)
        requires
            converted_to_offset(self.spec_inner(), offset) is Some,
        ensures
            converted_to_offset(self.spec_inner(), offset) == Some(r.spec_inner()),
            same_instant_in(r.spec_inner(), self.spec_inner(), offset),
    {
        match checked_to_offset(self.inner, offset) {
            Some(inner) => DateTime { inner },
            None => self,
        }
    }

    /// The text a date-time is displayed as, `2022-03-01 10:00:00 +0100`.
    pub fn display(&self) -> (r: Result<String, std::fmt::Error>)
        ensures
            match r {
                Ok(t) => formatted_date_time(self.spec_inner(), date_time_format()) == Some(t@),
                Err(_) => formatted_date_time(self.spec_inner(), date_time_format()) is None,
            },
    {
        match format_date_time_as(
            self.inner,
            "[year]-[month]-[day] [hour]:[minute]:[second] [offset_hour sign:mandatory][offset_minute]",
        ) {
            Some(t) => Ok(t),
            None => Err(format_error()),
        }
    }

    /// The current moment, in UTC.
    pub fn now() -> (r: Self)
        ensures
            is_utc(r.spec_inner()),
    {
        DateTime { inner: now_utc() }
    }

    /// The Unix epoch, the default date-time.
    pub fn unix_epoch() -> (r: Self)
        ensures
            is_unix_epoch(r.spec_inner()),
    {
        DateTime { inner: unix_epoch() }
    }

    /// Wraps a `time` date-time.
    pub fn from_offset_date_time(inner: time::OffsetDateTime) -> (r: Self)
        ensures
            r.spec_inner() == inner,
    {
        DateTime { inner }
    }

    /// The wrapped `time` date-time.
    pub fn offset_date_time(&self) -> (r: time::OffsetDateTime)
        ensures
            r == self.spec_inner(),
    {
        self.inner
    }

    /// Replaces the date, keeping the time and the offset.
    pub fn with_date(self, other: LiquidDate) -> (r: Self)
        ensures
            date_part_of(r.spec_inner()) == other.spec_inner(),
            hour_of(r.spec_inner()) == hour_of(self.spec_inner()),
            minute_of(r.spec_inner()) == minute_of(self.spec_inner()),
            second_of(r.spec_inner()) == second_of(self.spec_inner()),
            nanosecond_of(r.spec_inner()) == nanosecond_of(self.spec_inner()),
            offset_of(r.spec_inner()) == offset_of(self.spec_inner()),
    {
        DateTime { inner: replace_date(self.inner, other.inner) }
    }

    /// The date component.
    pub fn date(self) -> (r: LiquidDate)
        ensures
            r.spec_inner() == date_part_of(self.spec_inner()),
    {
        LiquidDate { inner: date_of(self.inner) }
    }

    /// The calendar fields, in the stored offset.
    pub fn parts(&self) -> (r: DateTimeParts)
        ensures
            r.wf(),
            r == parts_model(self.spec_inner()),
    {
        parts_of(&self.inner)
    }

    /// Formats with the legacy `%` directives; see [`legacy_format_parts`].
    pub fn format(&self, fmt: &str) -> (r: Result<String, std::fmt::Error>)
        ensures
            match r {
                Ok(s) => legacy_from(parts_model(self.spec_inner()), fmt@, 0) == Some(s@),
                Err(_) => legacy_from(parts_model(self.spec_inner()), fmt@, 0) is None,
            },
    {
        let p = self.parts();
        legacy_format_parts(&p, fmt)
    }
}

impl LiquidDate {
    /// The wrapped `time` date.
    pub closed spec fn spec_inner(&self) -> time::Date {
        self.inner
    }

    /// The date of a year, month and day; they must name a valid date.
    pub fn from_ymd(year: i32, month: u8, day: u8) -> (r: Self)
        requires
            valid_ymd(year as int, month as int, day as int),
        ensures
            date_year_of(r.spec_inner()) == year,
            date_month_of(r.spec_inner()) == month,
            date_day_of(r.spec_inner()) == day,
    {
        match from_calendar_date(year, month, day) {
            Some(inner) => LiquidDate { inner },
            None => LiquidDate { inner: date_of(unix_epoch()) },
        }
    }

    /// The date `text` names (see [`parse_date`]).
    pub fn from_str(text: &str) -> (r: Option<Self>)
        ensures
            text@ == "today"@ ==> exists|ts: time::OffsetDateTime|
                is_utc(ts) && (r matches Some(d) && d.spec_inner() == #[trigger] date_part_of(ts)),
            text@ != "today"@ ==> match r {
                Some(d) => user_date(text@) == Some(d.spec_inner()),
                None => user_date(text@) is None,
            },
    {
        match parse_date(text) {
            Some(inner) => Some(LiquidDate { inner }),
            None => None,
        }
    }

    /// The text a date is displayed as, `2022-03-01`.
    pub fn display(&self) -> (r: Result<String, std::fmt::Error>)
        ensures
            match r {
                Ok(t) => formatted_date(self.spec_inner(), date_format()) == Some(t@),
                Err(_) => formatted_date(self.spec_inner(), date_format()) is None,
            },
    {
        match format_date_as(self.inner, "[year]-[month]-[day]") {
            Some(t) => Ok(t),
            None => Err(format_error()),
        }
    }

    /// The wrapped `time` date.
    pub fn to_date(&self) -> (r: time::Date)
        ensures
            r == self.spec_inner(),
    {
        self.inner
    }

    /// The year.
    pub fn year(&self) -> (r: i32)
        ensures
            r == date_year_of(self.spec_inner()),
            -999_999 <= r <= 999_999,
    {
        date_year(&self.inner)
    }

    /// The month, `1..=12`.
    pub fn month(&self) -> (r: u8)
        ensures
            r == date_month_of(self.spec_inner()),
            1 <= r <= 12,
    {
        date_month(&self.inner)
    }

    /// The day of the month, `1..=31`.
    pub fn day(&self) -> (r: u8)
        ensures
            r == date_day_of(self.spec_inner()),
            1 <= r <= 31,
    {
        date_day(&self.inner)
    }

    /// The day of the year, `1..=366`.
    pub fn ordinal(&self) -> (r: u16)
        ensures
            r == date_ordinal_of(self.spec_inner()),
            1 <= r <= 366,
    {
        date_ordinal(&self.inner)
    }

    /// The ISO week, `1..=53`.
    pub fn iso_week(&self) -> (r: u8)
        ensures
            r == date_iso_week_of(self.spec_inner()),
            1 <= r <= 53,
    {
        date_iso_week(&self.inner)
    }

    /// Wraps a `time` date.
    pub fn from_date(inner: time::Date) -> (r: Self)
        ensures
            r.spec_inner() == inner,
    {
        LiquidDate { inner }
    }
}

/// The date set on a date-time is the date it reports: `with_date(d).date()`
/// is `d`.
pub proof fn law_with_date_then_date(d: LiquidDate, replaced: DateTime, read: LiquidDate)
    requires
        date_part_of(replaced.spec_inner()) == d.spec_inner(),
        read.spec_inner() == date_part_of(replaced.spec_inner()),
    ensures
        read.spec_inner() == d.spec_inner(),
{
}

/// A number below 100, zero-padded to two places, is two decimal digits
/// that read as the number.
proof fn lemma_two_digits(n: int)
    requires
        0 <= n < 100,
    ensures
        zero_pad(n, 2).len() == 2,
        all_digits(zero_pad(n, 2)),
        digits_value(zero_pad(n, 2)) == n,
{
    let t = zero_pad(n, 2);
    if n < 10 {
        assert(nat_text(n as nat) == seq![digit_char(n)]);
        assert(repeat('0', 1) =~= seq!['0']);
        assert(t =~= seq!['0', digit_char(n)]);
    } else {
        assert(nat_text((n / 10) as nat) == seq![digit_char(n / 10)]);
        assert(nat_text(n as nat) =~= seq![digit_char(n / 10), digit_char(n % 10)]);
        assert(repeat('0', 0) =~= Seq::<char>::empty());
        assert(t =~= seq![digit_char(n / 10), digit_char(n % 10)]);
    }
    let h = t.drop_last();
    assert(h.len() == 1 && h[0] == t[0]);
    assert(h.drop_last().len() == 0);
    assert(digits_value(h.drop_last()) == 0);
    assert(h.last() == t[0]);
    assert(digits_value(h) == t[0] as int - 48);
}

/// The text of a format made of the one legacy directive `%c`.
proof fn lemma_legacy_lone(p: DateTimeParts, c: char)
    ensures
        legacy_from(p, seq!['%', c], 0) == (match legacy_directive(p, c) {
            Some(t) => Some(t),
            None => None::<Seq<char>>,
        }),
{
    let fmt = seq!['%', c];
    assert(fmt[0] == '%' && fmt[1] == c && fmt.len() == 2);
    assert(legacy_from(p, fmt, 2) == Some(Seq::<char>::empty()));
    if let Some(t) = legacy_directive(p, c) {
        assert(t + Seq::<char>::empty() =~= t);
    }
}

/// The legacy week and weekday numbers of a date-time: `%U` is its week
/// counted from the first Sunday of the year and `%W` from the first Monday,
/// each as two digits; `%u` counts the weekday from Monday as 1 to Sunday as
/// 7 and `%w` from Sunday as 0, so `%w` is `%u` modulo 7 and 0 exactly on a
/// Sunday.
pub proof fn law_legacy_week_numbers(ts: time::OffsetDateTime)
    requires
        sunday_week_of(ts) <= 53,
        monday_week_of(ts) <= 53,
        weekday_of(ts) < 7,
    ensures
        legacy_from(parts_model(ts), seq!['%', 'U'], 0) matches Some(t) && t.len() == 2
            && all_digits(t) && digits_value(t) == sunday_week_of(ts),
        legacy_from(parts_model(ts), seq!['%', 'W'], 0) matches Some(t) && t.len() == 2
            && all_digits(t) && digits_value(t) == monday_week_of(ts),
        exists|u: char, w: char|
            {
                &&& legacy_from(parts_model(ts), seq!['%', 'u'], 0) == Some(seq![u])
                &&& legacy_from(parts_model(ts), seq!['%', 'w'], 0) == Some(seq![w])
                &&& '1' <= u <= '7' && '0' <= w <= '6'
                &&& u as int - '0' as int == weekday_of(ts) + 1
                &&& (w == '0' <==> weekday_of(ts) == 6)
                &&& w as int - '0' as int == (u as int - '0' as int) % 7
            },
{
    let p = parts_model(ts);
    lemma_legacy_lone(p, 'U');
    lemma_legacy_lone(p, 'W');
    lemma_legacy_lone(p, 'u');
    lemma_legacy_lone(p, 'w');
    lemma_two_digits(sunday_week_of(ts) as int);
    lemma_two_digits(monday_week_of(ts) as int);
    let vu = weekday_of(ts) + 1;
    let vw = (weekday_of(ts) + 1) % 7;
    assert(int_text(vu as int) == seq![digit_char(vu as int)]);
    assert(int_text(vw as int) == seq![digit_char(vw as int)]);
    let u = digit_char(vu as int);
    let w = digit_char(vw as int);
    assert(u as int == vu + 48);
    assert(w as int == vw + 48);
}

/// The legacy two-place directives render their field as two digits: `%m`
/// the month, `%d` the day, `%H` the hour, `%M` the minute, `%S` the second,
/// `%U` and `%W` the week counted from the first Sunday and Monday, `%V` the
/// ISO week.
pub proof fn law_legacy_two_digit_fields(p: DateTimeParts)
    requires
        p.wf(),
    ensures
        legacy_from(p, seq!['%', 'm'], 0) matches Some(t) && t.len() == 2 && all_digits(t)
            && digits_value(t) == p.month,
        legacy_from(p, seq!['%', 'd'], 0) matches Some(t) && t.len() == 2 && all_digits(t)
            && digits_value(t) == p.day,
        legacy_from(p, seq!['%', 'H'], 0) matches Some(t) && t.len() == 2 && all_digits(t)
            && digits_value(t) == p.hour,
        legacy_from(p, seq!['%', 'M'], 0) matches Some(t) && t.len() == 2 && all_digits(t)
            && digits_value(t) == p.minute,
        legacy_from(p, seq!['%', 'S'], 0) matches Some(t) && t.len() == 2 && all_digits(t)
            && digits_value(t) == p.second,
        legacy_from(p, seq!['%', 'U'], 0) matches Some(t) && t.len() == 2 && all_digits(t)
            && digits_value(t) == p.sunday_week,
        legacy_from(p, seq!['%', 'W'], 0) matches Some(t) && t.len() == 2 && all_digits(t)
            && digits_value(t) == p.monday_week,
        legacy_from(p, seq!['%', 'V'], 0) matches Some(t) && t.len() == 2 && all_digits(t)
            && digits_value(t) == p.iso_week,
{
    lemma_legacy_lone(p, 'm');
    lemma_legacy_lone(p, 'd');
    lemma_legacy_lone(p, 'H');
    lemma_legacy_lone(p, 'M');
    lemma_legacy_lone(p, 'S');
    lemma_legacy_lone(p, 'U');
    lemma_legacy_lone(p, 'W');
    lemma_legacy_lone(p, 'V');
    lemma_two_digits(p.month as int);
    lemma_two_digits(p.day as int);
    lemma_two_digits(p.hour as int);
    lemma_two_digits(p.minute as int);
    lemma_two_digits(p.second as int);
    lemma_two_digits(p.sunday_week as int);
    lemma_two_digits(p.monday_week as int);
    lemma_two_digits(p.iso_week as int);
}

} // verus!
