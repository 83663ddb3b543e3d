//! Calendar values read from the `time` crate, as plain numbers.
//!
//! The formatting logic works on [`DateTimeParts`]; the `time` crate computes
//! the calendar fields (weekday, ISO week, ...) from an `OffsetDateTime`.

use vstd::prelude::*;

verus! {

#[verifier::external_type_specification]
#[verifier::external_body]
pub struct ExOffsetDateTime(time::OffsetDateTime);

#[verifier::external_type_specification]
#[verifier::external_body]
pub struct ExUtcOffset(time::UtcOffset);

#[verifier::external_type_specification]
#[verifier::external_body]
pub struct ExDate(time::Date);

/// What `OffsetDateTime::year` returns.
pub uninterp spec fn year_of(ts: time::OffsetDateTime) -> i32;

/// What `OffsetDateTime::month`, as its number returns.
pub uninterp spec fn month_of(ts: time::OffsetDateTime) -> u8;

/// What `OffsetDateTime::day` returns.
pub uninterp spec fn day_of(ts: time::OffsetDateTime) -> u8;

/// What `OffsetDateTime::ordinal` returns.
pub uninterp spec fn ordinal_of(ts: time::OffsetDateTime) -> u16;

/// What `OffsetDateTime::weekday`, as days from Monday, returns.
pub uninterp spec fn weekday_of(ts: time::OffsetDateTime) -> u8;

/// What `OffsetDateTime::sunday_based_week` returns.
pub uninterp spec fn sunday_week_of(ts: time::OffsetDateTime) -> u8;

/// What `OffsetDateTime::monday_based_week` returns.
pub uninterp spec fn monday_week_of(ts: time::OffsetDateTime) -> u8;

/// What `OffsetDateTime::to_iso_week_date`, without its weekday, returns.
pub uninterp spec fn iso_week_date_of(ts: time::OffsetDateTime) -> (i32, u8);

/// What `OffsetDateTime::hour` returns.
pub uninterp spec fn hour_of(ts: time::OffsetDateTime) -> u8;

/// What `OffsetDateTime::minute` returns.
pub uninterp spec fn minute_of(ts: time::OffsetDateTime) -> u8;

/// What `OffsetDateTime::second` returns.
pub uninterp spec fn second_of(ts: time::OffsetDateTime) -> u8;

/// What `OffsetDateTime::millisecond` returns.
pub uninterp spec fn millisecond_of(ts: time::OffsetDateTime) -> u16;

/// What `OffsetDateTime::nanosecond` returns.
pub uninterp spec fn nanosecond_of(ts: time::OffsetDateTime) -> u32;

/// What `OffsetDateTime::unix_timestamp` returns.
pub uninterp spec fn unix_timestamp_of(ts: time::OffsetDateTime) -> i64;

/// What `OffsetDateTime::offset` returns.
pub uninterp spec fn offset_of(ts: time::OffsetDateTime) -> time::UtcOffset;

/// What `UtcOffset::whole_hours` returns.
pub uninterp spec fn offset_hours_of(o: time::UtcOffset) -> i8;

/// What `UtcOffset::minutes_past_hour` returns.
pub uninterp spec fn offset_minutes_of(o: time::UtcOffset) -> i8;

/// What `UtcOffset::seconds_past_minute` returns.
pub uninterp spec fn offset_seconds_of(o: time::UtcOffset) -> i8;

/// What `UtcOffset::is_negative` returns.
pub uninterp spec fn offset_negative_of(o: time::UtcOffset) -> bool;

/// `OffsetDateTime::year`: the year in the stored offset; the crate bounds
/// years to `±999_999` (`±9999` without its `large-dates` feature).
#[verifier::external_body]
fn odt_year(ts: &time::OffsetDateTime) -> (r: i32)
    ensures
        r == year_of(*ts),
        -999_999 <= r <= 999_999,
{
    ts.year()
}

/// `OffsetDateTime::month`, as its number (`Month` is `repr(u8)`, January = 1).
#[verifier::external_body]
fn odt_month(ts: &time::OffsetDateTime) -> (r: u8)
    ensures
        r == month_of(*ts),
        1 <= r <= 12,
{
    ts.month() as u8
}

/// `OffsetDateTime::day`: documented to be in `1..=31`.
#[verifier::external_body]
fn odt_day(ts: &time::OffsetDateTime) -> (r: u8)
    ensures
        r == day_of(*ts),
        1 <= r <= 31,
{
    ts.day()
}

/// `OffsetDateTime::ordinal`: documented to be in `1..=366`.
#[verifier::external_body]
fn odt_ordinal(ts: &time::OffsetDateTime) -> (r: u16)
    ensures
        r == ordinal_of(*ts),
        1 <= r <= 366,
{
    ts.ordinal()
}

/// `OffsetDateTime::weekday`, as its number of days from Monday
/// (`Weekday` is `repr(u8)` with Monday first).
#[verifier::external_body]
fn odt_weekday(ts: &time::OffsetDateTime) -> (r: u8)
    ensures
        r == weekday_of(*ts),
        r < 7,
{
    ts.weekday() as u8
}

/// `OffsetDateTime::sunday_based_week`: documented to be in `0..=53`.
#[verifier::external_body]
fn odt_sunday_based_week(ts: &time::OffsetDateTime) -> (r: u8)
    ensures
        r == sunday_week_of(*ts),
        r <= 53,
{
    ts.sunday_based_week()
}

/// `OffsetDateTime::monday_based_week`: documented to be in `0..=53`.
#[verifier::external_body]
fn odt_monday_based_week(ts: &time::OffsetDateTime) -> (r: u8)
    ensures
        r == monday_week_of(*ts),
        r <= 53,
{
    ts.monday_based_week()
}

/// `OffsetDateTime::to_iso_week_date`, without its weekday: the ISO year
/// (the calendar year or a neighbour of it) and the ISO week, in `1..=53`.
#[verifier::external_body]
fn odt_iso_week_date(ts: &time::OffsetDateTime) -> (r: (i32, u8))
    ensures
        r == iso_week_date_of(*ts),
        -1_000_000 <= r.0 <= 1_000_000,
        1 <= r.1 <= 53,
{
    let (year, week, _weekday) = ts.to_iso_week_date();
    (year, week)
}

/// `OffsetDateTime::hour`: documented to be in `0..24`.
#[verifier::external_body]
fn odt_hour(ts: &time::OffsetDateTime) -> (r: u8)
    ensures
        r == hour_of(*ts),
        r < 24,
{
    ts.hour()
}

/// `OffsetDateTime::minute`: documented to be in `0..60`.
#[verifier::external_body]
fn odt_minute(ts: &time::OffsetDateTime) -> (r: u8)
    ensures
        r == minute_of(*ts),
        r < 60,
{
    ts.minute()
}

/// `OffsetDateTime::second`: documented to be in `0..60`.
#[verifier::external_body]
fn odt_second(ts: &time::OffsetDateTime) -> (r: u8)
    ensures
        r == second_of(*ts),
        r < 60,
{
    ts.second()
}

/// `OffsetDateTime::millisecond`: documented to be in `0..1_000`.
#[verifier::external_body]
fn odt_millisecond(ts: &time::OffsetDateTime) -> (r: u16)
    ensures
        r == millisecond_of(*ts),
        r < 1000,
{
    ts.millisecond()
}

/// `OffsetDateTime::nanosecond`: documented to be in `0..1_000_000_000`.
#[verifier::external_body]
fn odt_nanosecond(ts: &time::OffsetDateTime) -> (r: u32)
    ensures
        r == nanosecond_of(*ts),
        r < 1_000_000_000,
{
    ts.nanosecond()
}

/// `OffsetDateTime::unix_timestamp`: the whole seconds since the Unix epoch.
#[verifier::external_body]
fn odt_unix_timestamp(ts: &time::OffsetDateTime) -> (r: i64)
    ensures
        r == unix_timestamp_of(*ts),
{
    ts.unix_timestamp()
}

/// `OffsetDateTime::offset`: the stored UTC offset.
#[verifier::external_body]
fn odt_offset(ts: &time::OffsetDateTime) -> (r: time::UtcOffset)
    ensures
        r == offset_of(*ts),
{
    ts.offset()
}

/// `UtcOffset::whole_hours`: the hours field, bounded to `-25..=25` by the crate.
#[verifier::external_body]
fn offset_whole_hours(o: &time::UtcOffset) -> (r: i8)
    ensures
        r == offset_hours_of(*o),
        -25 <= r <= 25,
{
    o.whole_hours()
}

/// `UtcOffset::minutes_past_hour`: the minutes field, bounded to `-59..=59`.
#[verifier::external_body]
fn offset_minutes_past_hour(o: &time::UtcOffset) -> (r: i8)
    ensures
        r == offset_minutes_of(*o),
        -59 <= r <= 59,
{
    o.minutes_past_hour()
}

/// `UtcOffset::seconds_past_minute`: the seconds field, bounded to `-59..=59`.
#[verifier::external_body]
fn offset_seconds_past_minute(o: &time::UtcOffset) -> (r: i8)
    ensures
        r == offset_seconds_of(*o),
        -59 <= r <= 59,
{
    o.seconds_past_minute()
}

/// `UtcOffset::is_negative`: whether the offset is west of UTC.
#[verifier::external_body]
fn offset_is_negative(o: &time::UtcOffset) -> (r: bool)
    ensures
        r == offset_negative_of(*o),
{
    o.is_negative()
}

/// The calendar fields of a date-time in its own offset, as plain numbers.
#[derive(Clone, Copy, Debug, PartialEq, Eq)]
pub struct DateTimeParts {
    /// Proleptic Gregorian year.
    pub year: i32,
    /// Month, `1..=12`.
    pub month: u8,
    /// Day of the month, `1..=31`.
    pub day: u8,
    /// Day of the year, `1..=366`.
    pub ordinal: u16,
    /// Days since Monday, `0..7`.
    pub weekday: u8,
    /// Week of the year, weeks starting on the first Sunday, `0..=53`.
    pub sunday_week: u8,
    /// Week of the year, weeks starting on the first Monday, `0..=53`.
    pub monday_week: u8,
    /// ISO 8601 week-numbering year.
    pub iso_year: i32,
    /// ISO 8601 week, `1..=53`.
    pub iso_week: u8,
    /// Hour, `0..24`.
    pub hour: u8,
    /// Minute, `0..60`.
    pub minute: u8,
    /// Second, `0..60`.
    pub second: u8,
    /// Millisecond of the second, `0..1000`.
    pub millisecond: u16,
    /// Nanosecond of the second, `0..1_000_000_000`.
    pub nanosecond: u32,
    /// Seconds since the Unix epoch.
    pub unix_timestamp: i64,
    /// Whole hours of the UTC offset.
    pub offset_hours: i8,
    /// Minutes past the hour of the UTC offset.
    pub offset_minutes: i8,
    /// Seconds past the minute of the UTC offset.
    pub offset_seconds: i8,
    /// Whether the offset is west of UTC.
    pub offset_negative: bool,
}

impl DateTimeParts {
    /// Every field is in its documented range.
    pub open spec fn wf(&self) -> bool {
        &&& -999_999 <= self.year <= 999_999
        &&& 1 <= self.month <= 12
        &&& 1 <= self.day <= 31
        &&& 1 <= self.ordinal <= 366
        &&& self.weekday < 7
        &&& self.sunday_week <= 53
        &&& self.monday_week <= 53
        &&& -1_000_000 <= self.iso_year <= 1_000_000
        &&& 1 <= self.iso_week <= 53
        &&& self.hour < 24
        &&& self.minute < 60
        &&& self.second < 60
        &&& self.millisecond < 1000
        &&& self.nanosecond < 1_000_000_000
        &&& -25 <= self.offset_hours <= 25
        &&& -59 <= self.offset_minutes <= 59
        &&& -59 <= self.offset_seconds <= 59
    }
}

/// The calendar fields of `ts`, as the `time` crate reports them.
pub open spec fn parts_model(ts: time::OffsetDateTime) -> DateTimeParts {
    let o = offset_of(ts);
    DateTimeParts {
        year: year_of(ts),
        month: month_of(ts),
        day: day_of(ts),
        ordinal: ordinal_of(ts),
        weekday: weekday_of(ts),
        sunday_week: sunday_week_of(ts),
        monday_week: monday_week_of(ts),
        iso_year: iso_week_date_of(ts).0,
        iso_week: iso_week_date_of(ts).1,
        hour: hour_of(ts),
        minute: minute_of(ts),
        second: second_of(ts),
        millisecond: millisecond_of(ts),
        nanosecond: nanosecond_of(ts),
        unix_timestamp: unix_timestamp_of(ts),
        offset_hours: offset_hours_of(o),
        offset_minutes: offset_minutes_of(o),
        offset_seconds: offset_seconds_of(o),
        offset_negative: offset_negative_of(o),
    }
}

/// Reads the calendar fields of `ts`.
pub fn parts_of(ts: &time::OffsetDateTime) -> (r: DateTimeParts)
    ensures
        r.wf(),
        r == parts_model(*ts),
{
    let (iso_year, iso_week) = odt_iso_week_date(ts);
    let offset = odt_offset(ts);
    DateTimeParts {
        year: odt_year(ts),
        month: odt_month(ts),
        day: odt_day(ts),
        ordinal: odt_ordinal(ts),
        weekday: odt_weekday(ts),
        sunday_week: odt_sunday_based_week(ts),
        monday_week: odt_monday_based_week(ts),
        iso_year,
        iso_week,
        hour: odt_hour(ts),
        minute: odt_minute(ts),
        second: odt_second(ts),
        millisecond: odt_millisecond(ts),
        nanosecond: odt_nanosecond(ts),
        unix_timestamp: odt_unix_timestamp(ts),
        offset_hours: offset_whole_hours(&offset),
        offset_minutes: offset_minutes_past_hour(&offset),
        offset_seconds: offset_seconds_past_minute(&offset),
        offset_negative: offset_is_negative(&offset),
    }
}

} // verus!
