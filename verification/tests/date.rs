use liquid_verified::date::{parse_date, parse_date_time, DateTime, LiquidDate};

fn datetime(
    year: i32,
    month: u8,
    day: u8,
    hms: (u8, u8, u8),
    nanos: u32,
    offset: (i8, i8),
) -> time::OffsetDateTime {
    let month = time::Month::try_from(month).unwrap();
    let date = time::Date::from_calendar_date(year, month, day).unwrap();
    let time = time::Time::from_hms_nano(hms.0, hms.1, hms.2, nanos).unwrap();
    let offset = time::UtcOffset::from_hms(offset.0, offset.1, 0).unwrap();
    time::PrimitiveDateTime::new(date, time).assume_offset(offset)
}

fn simple() -> DateTime {
    DateTime::from_offset_date_time(datetime(2022, 11, 3, (7, 56, 37), 666_777_888, (6, 0)))
}

#[test]
fn legacy_format_fields() {
    let dt = simple();
    let cases = [
        ("%Y-%m-%d %H:%M:%S %z", "2022-11-03 07:56:37 +0600"),
        ("%C %y %b %h %B", "20 22 Nov Nov November"),
        ("%d|%e|%a|%A|%w|%u", "03| 3|Thu|Thursday|4|4"),
        ("%U %W %G %g %V %j", "44 44 2022 22 44 307"),
        ("%D %x", "11/03/22 11/03/22"),
        ("%F", "2022-11-03"),
        ("%v", " 3-Nov-2022"),
        ("%H %k %I %l %P %p", "07  7 07  7 am AM"),
        ("%M %S %L", "56 37 666"),
        ("%R %T %X", "07:56 07:56:37 07:56:37"),
        ("%r", "07:56:37 AM"),
        ("%Z", "+06:00"),
        ("%c", "Thu Nov 3 07:56:37 2022"),
        ("%+", "2022-11-03 07:56:37+06:00"),
        ("%s", "1667440597"),
        ("a%tb%nc%%d", "a\tb\nc%d"),
        ("plain text", "plain text"),
        ("", ""),
    ];
    for (fmt, expected) in cases {
        assert_eq!(dt.format(fmt).unwrap(), expected, "format {}", fmt);
    }
}

#[test]
fn legacy_format_rejects_unsupported_directives() {
    assert!(simple().format("%q").is_err());
    assert!(simple().format("%Y %Q").is_err());
}

#[test]
fn legacy_format_negative_offsets_and_afternoon() {
    let dt = DateTime::from_offset_date_time(datetime(-20, 6, 13, (17, 5, 9), 0, (-7, -25)));
    assert_eq!(dt.format("%Y %z %Z %l%P %I").unwrap(), "-020 -0725 -07:25  5pm 05");
    assert_eq!(dt.format("%C %y").unwrap(), "00 -20");
}

#[test]
fn date_components() {
    let dt = simple();
    let date: LiquidDate = dt.date();
    assert_eq!(date.year(), 2022);
    assert_eq!(date.month(), 11);
    assert_eq!(date.day(), 3);
    assert_eq!(date.ordinal(), 307);
    assert_eq!(date.iso_week(), 44);
    let moved = DateTime::unix_epoch().with_date(date);
    assert_eq!(moved.format("%F %T %z").unwrap(), "2022-11-03 00:00:00 +0000");
    let _ = DateTime::now().parts();
}

#[test]
fn date_parse_date_time_empty_is_bad() {
    let input = "";
    let actual = parse_date(input);
    assert!(actual.is_none());
}

#[test]
fn date_parse_date_time_bad() {
    let input = "aaaaa";
    let actual = parse_date(input);
    assert!(actual.is_none());
}

#[test]
fn parse_date_today() {
    let input = "today";
    let actual = parse_date(input);
    assert!(actual.is_some());
}

#[test]
fn parse_long_month() {
    let input = "01 March 2022";
    let actual = parse_date(input);
    assert_eq!(
        time::Date::from_calendar_date(2022, time::Month::March, 1).unwrap(),
        actual.unwrap()
    );
}

#[test]
fn parse_short_month() {
    let input = "01 Mar 2022";
    let actual = parse_date(input);
    assert_eq!(
        time::Date::from_calendar_date(2022, time::Month::March, 1).unwrap(),
        actual.unwrap()
    );
}

#[test]
fn parse_iso() {
    let input = "2022-03-02";
    let actual = parse_date(input);
    assert_eq!(
        time::Date::from_calendar_date(2022, time::Month::March, 2).unwrap(),
        actual.unwrap()
    );
}

#[test]
fn datetime_parse_date_time_empty_is_bad() {
    let input = "";
    let actual = parse_date_time(input);
    assert!(actual.is_none());
}

#[test]
fn datetime_parse_date_time_bad() {
    let input = "aaaaa";
    let actual = parse_date_time(input);
    assert!(actual.is_none());
}

#[test]
fn parse_date_time_now() {
    let input = "now";
    let actual = parse_date_time(input);
    assert!(actual.is_some());
}

#[test]
fn parse_date_time_serialized_format() {
    let input = "2016-02-16 10:00:00 +0100";
    let actual = parse_date_time(input);
    assert!(actual.is_some());
}

#[test]
fn parse_date_time_to_string() {
    let date = DateTime::now();
    let input = date.display().unwrap();
    let actual = parse_date_time(&input);
    assert!(actual.is_some());
}

#[test]
fn user_formats_read_long_and_short_month_names() {
    let long = DateTime::from_str("16 February 2016 10:00:00 +0100").unwrap();
    let short = DateTime::from_str("16 Feb 2016 10:00:00 +0100").unwrap();
    assert_eq!(long.display().unwrap(), "2016-02-16 10:00:00 +0100");
    assert_eq!(short.display().unwrap(), "2016-02-16 10:00:00 +0100");
    assert!(DateTime::from_str("2016-02-16").is_none());
}

#[test]
fn dates_display_in_iso_order() {
    let d = LiquidDate::from_ymd(2024, 2, 29);
    assert_eq!((d.year(), d.month(), d.day()), (2024, 2, 29));
    assert_eq!(d.display().unwrap(), "2024-02-29");
    assert_eq!(LiquidDate::from_str("29 Feb 2024").unwrap().display().unwrap(), "2024-02-29");
    assert!(LiquidDate::from_str("30 Feb 2024").is_none());
    assert!(LiquidDate::from_str("today").is_some());
}

#[test]
fn offsets_convert_the_same_moment() {
    let dt = DateTime::from_str("2016-02-16 10:00:00 +0100").unwrap();
    let utc = dt.with_offset(time::UtcOffset::UTC);
    assert_eq!(utc.display().unwrap(), "2016-02-16 09:00:00 +0000");
    let west = dt.checked_with_offset(time::UtcOffset::from_hms(-11, 0, 0).unwrap()).unwrap();
    assert_eq!(west.display().unwrap(), "2016-02-15 22:00:00 -1100");
}

#[test]
fn legacy_format_rejects_trailing_percent_and_unknown_directives() {
    let dt = DateTime::from_str("2022-11-03 07:56:37 +0600").unwrap();
    assert_eq!(dt.format("%F").unwrap(), "2022-11-03");
    assert_eq!(dt.format("%v").unwrap(), " 3-Nov-2022");
    assert!(dt.format("X%").is_err());
    assert!(dt.format("%Q").is_err());
    assert!(dt.format("%é").is_err());
}

#[test]
fn the_current_moment_is_given_in_utc() {
    assert!(DateTime::now().display().unwrap().ends_with(" +0000"));
    assert!(DateTime::from_str("now").unwrap().display().unwrap().ends_with(" +0000"));
    assert!(parse_date("today").is_some());
}
