use liquid_verified::strftime::{strftime, DateFormatError};

fn datetime(
    year: i32,
    month: u8,
    day: u8,
    hms: (u8, u8, u8),
    nanos: u32,
    offset: (i8, i8),
) -> time::OffsetDateTime {
    let month = time::Month::try_from(month).unwrap();
    let date = time::Date::from_calendar_date(year, month, day).unwrap();
    let time = time::Time::from_hms_nano(hms.0, hms.1, hms.2, nanos).unwrap();
    let offset = time::UtcOffset::from_hms(offset.0, offset.1, 0).unwrap();
    time::PrimitiveDateTime::new(date, time).assume_offset(offset)
}

fn simple() -> time::OffsetDateTime {
    datetime(2022, 11, 3, (7, 56, 37), 666_777_888, (6, 0))
}

fn check(ts: time::OffsetDateTime, cases: &[(&str, &str)]) {
    for (fmt, expected) in cases {
        match strftime(ts, fmt) {
            Ok(formatted) => assert_eq!(
                &formatted, expected,
                "format string '{}' gave unexpected results",
                fmt
            ),
            Err(err) => panic!("failed to format with '{}': {:?}", fmt, err),
        }
    }
}

#[test]
fn basic() {
    check(
        simple(),
        &[
            ("%Y", "2022"),
            ("%C", "20"),
            ("%y", "22"),
            ("%m", "11"),
            ("%B", "November"),
            ("%b", "Nov"),
            ("%h", "Nov"),
            ("%d", "03"),
            ("%e", " 3"),
            ("%j", "307"),
            ("%H", "07"),
            ("%k", " 7"),
            ("%I", "07"),
            ("%l", " 7"),
            ("%P", "am"),
            ("%p", "AM"),
            ("%M", "56"),
            ("%S", "37"),
            ("%L", "666"),
            ("%N", "666777888"),
            ("%1N", "6"),
            ("%3N", "666"),
            ("%6N", "666777"),
            ("%9N", "666777888"),
            ("%12N", "666777888000"),
            ("%24N", "666777888000000000000000"),
            ("%z", "+0600"),
            ("%Z", "+06:00"),
            ("%A", "Thursday"),
            ("%a", "Thu"),
            ("%u", "4"),
            ("%w", "4"),
            ("%G", "2022"),
            ("%g", "22"),
            ("%V", "44"),
            ("%U", "44"),
            ("%W", "44"),
            ("%s", "1667440597"),
            ("%n", "\n"),
            ("%t", "\t"),
            ("%%", "%"),
            ("%c", "Thu Nov  3 07:56:37 2022"),
            ("%D", "11/03/22"),
            ("%F", "2022-11-03"),
            ("%v", " 3-NOV-2022"),
            ("%x", "11/03/22"),
            ("%T", "07:56:37"),
            ("%X", "07:56:37"),
            ("%r", "07:56:37 AM"),
            ("%R", "07:56"),
        ],
    );
}

#[test]
fn iso_composites() {
    check(
        datetime(2007, 11, 19, (8, 37, 48), 0, (-6, 0)),
        &[
            ("%Y%m%d", "20071119"),
            ("%F", "2007-11-19"),
            ("%Y-%m", "2007-11"),
            ("%Y", "2007"),
            ("%C", "20"),
            ("%Y%j", "2007323"),
            ("%Y-%j", "2007-323"),
            ("%GW%V%u", "2007W471"),
            ("%G-W%V-%u", "2007-W47-1"),
            ("%GW%V", "2007W47"),
            ("%G-W%V", "2007-W47"),
            ("%H%M%S", "083748"),
            ("%T", "08:37:48"),
            ("%H%M", "0837"),
            ("%H:%M", "08:37"),
            ("%H", "08"),
            ("%H%M%S,%L", "083748,000"),
            ("%T,%L", "08:37:48,000"),
            ("%H%M%S.%L", "083748.000"),
            ("%T.%L", "08:37:48.000"),
            ("%H%M%S%z", "083748-0600"),
            ("%T%:z", "08:37:48-06:00"),
            ("%Y%m%dT%H%M%S%z", "20071119T083748-0600"),
            ("%FT%T%:z", "2007-11-19T08:37:48-06:00"),
            ("%Y%jT%H%M%S%z", "2007323T083748-0600"),
            ("%Y-%jT%T%:z", "2007-323T08:37:48-06:00"),
            ("%GW%V%uT%H%M%S%z", "2007W471T083748-0600"),
            ("%G-W%V-%uT%T%:z", "2007-W47-1T08:37:48-06:00"),
            ("%Y%m%dT%H%M", "20071119T0837"),
            ("%FT%R", "2007-11-19T08:37"),
            ("%Y%jT%H%MZ", "2007323T0837Z"),
            ("%Y-%jT%RZ", "2007-323T08:37Z"),
            ("%GW%V%uT%H%M%z", "2007W471T0837-0600"),
            ("%G-W%V-%uT%R%:z", "2007-W47-1T08:37-06:00"),
        ],
    );
}

#[test]
fn upper_flag() {
    check(
        datetime(2007, 1, 19, (8, 37, 48), 0, (-6, 0)),
        &[
            ("%^b", "JAN"),
            ("%^h", "JAN"),
            ("%^B", "JANUARY"),
            ("%^a", "FRI"),
            ("%^A", "FRIDAY"),
            ("%^p", "AM"),
            ("%^P", "AM"),
            ("%^v", "19-JAN-2007"),
        ],
    );
}

#[test]
fn change_flag() {
    check(
        datetime(2007, 12, 19, (18, 37, 48), 0, (8, 0)),
        &[
            ("%#b", "DEC"),
            ("%#h", "DEC"),
            ("%#B", "DECEMBER"),
            ("%#a", "WED"),
            ("%#A", "WEDNESDAY"),
            ("%#p", "pm"),
            ("%#P", "PM"),
            ("%#v", "19-DEC-2007"),
        ],
    );
}

#[test]
fn padding() {
    check(
        datetime(2022, 1, 3, (7, 56, 37), 666_777_888, (6, 0)),
        &[
            ("%8Y", "00002022"),
            ("%_11Y", "       2022"),
            ("%1C", "20"),
            ("%2C", "20"),
            ("%3C", "020"),
            ("%_4C", "  20"),
            ("%_5y", "   22"),
            ("%-_5y", "22"),
            ("%_-5y", "22"),
            ("%-5y", "22"),
            ("%13m", "0000000000001"),
            ("%_13m", "            1"),
            ("%7B", "January"),
            ("%8B", " January"),
            ("%_8B", " January"),
            ("%08B", "0January"),
            ("%7b", "    Jan"),
            ("%07h", "0000Jan"),
            ("%-07h", "Jan"),
            ("%2d", "03"),
            ("%3d", "003"),
            ("%_5d", "    3"),
            ("%3e", "  3"),
            ("%_3e", "  3"),
            ("%03e", "003"),
            ("%j", "003"),
            ("%_j", "  3"),
            ("%1j", "3"),
            ("%2j", "03"),
            ("%_2j", " 3"),
            ("%_H", " 7"),
            ("%0k", "07"),
            ("%_I", " 7"),
            ("%04l", "0007"),
            ("%4P", "  am"),
            ("%04p", "00AM"),
            ("%01p", "AM"),
            ("%9M", "000000056"),
            ("%_10S", "        37"),
            ("%_20L", "66677788800000000000"),
            ("%-_20L", "66677788800000000000"),
            ("%_N", "666777888"),
            ("%_1N", "6"),
            ("%_3N", "666"),
            ("%_6N", "666777"),
            ("%_9N", "666777888"),
            ("%_12N", "666777888000"),
            ("%-_24N", "666777888000000000000000"),
            ("%1z", "+0600"),
            ("%2z", "+0600"),
            ("%3z", "+0600"),
            ("%4z", "+0600"),
            ("%5z", "+0600"),
            ("%6z", "+00600"),
            ("%10z", "+000000600"),
            ("%10Z", "+000006:00"),
            ("%10::z", "+006:00:00"),
            ("%4A", "Monday"),
            ("%10A", "    Monday"),
            ("%10a", "       Mon"),
            ("%-10a", "Mon"),
            ("%04a", "0Mon"),
            ("%05u", "00001"),
            ("%_5w", "    1"),
            ("%13G", "0000000002022"),
            ("%_13g", "           22"),
            ("%V", "01"),
            ("%U", "01"),
            ("%W", "01"),
            ("%10s", "1641174997"),
            ("%20s", "00000000001641174997"),
            ("%2n", " \n"),
            ("%05t", "0000\t"),
            ("%10%", "         %"),
            ("%30c", "      Mon Jan  3 07:56:37 2022"),
            ("%8D", "01/03/22"),
            ("%012F", "002022-01-03"),
            ("%012v", "0 3-JAN-2022"),
            ("%3x", "01/03/22"),
            ("%11T", "   07:56:37"),
            ("%8X", "07:56:37"),
            ("%10X", "  07:56:37"),
            ("%010X", "0007:56:37"),
            ("%12r", " 07:56:37 AM"),
            ("%-6R", " 07:56"),
        ],
    );

    check(
        datetime(-20, 6, 13, (17, 56, 37), 666_777_888, (-7, -25)),
        &[
            ("%Y", "-0020"),
            ("%_Y", "  -20"),
            ("%4Y", "-020"),
            ("%_4Y", " -20"),
            ("%1z", "-0725"),
            ("%2z", "-0725"),
            ("%3z", "-0725"),
            ("%4z", "-0725"),
            ("%5z", "-0725"),
            ("%6z", "-00725"),
            ("%10z", "-000000725"),
            ("%10Z", "-000007:25"),
            ("%10::z", "-007:25:00"),
        ],
    );
}

#[test]
fn handles_unknown() {
    check(
        datetime(-20, 6, 13, (17, 56, 37), 666_777_888, (-6, 0)),
        &[
            ("%:b", "%:b"),
            ("%-_::xX%Y", "%-_::xX-0020"),
            ("%-_::xX%4Y", "%-_::xX-020"),
            ("%_0-^#^q", "%_0-^#^q"),
        ],
    );
}

#[test]
fn errors() {
    assert_eq!(
        strftime(simple(), "%9").unwrap_err(),
        DateFormatError::NoFormatSpecifier
    );
    assert_eq!(
        strftime(simple(), "%9E").unwrap_err(),
        DateFormatError::NoFormatSpecifierAfterModifier
    );
    assert_eq!(
        strftime(simple(), "%010").unwrap_err(),
        DateFormatError::NoFormatSpecifier
    );
    assert_eq!(
        strftime(simple(), "X%").unwrap_err(),
        DateFormatError::NoFormatSpecifier
    );
    assert!(matches!(
        strftime(simple(), "%18446744073709551616d").unwrap_err(),
        DateFormatError::InvalidWidth(_)
    ));
}

#[test]
fn strftime_keeps_plain_text_and_non_ascii_literals() {
    assert_eq!(strftime(simple(), "année %Y é").unwrap(), "année 2022 é");
    assert_eq!(strftime(simple(), "").unwrap(), "");
}

#[test]
fn unknown_directive_ending_in_non_ascii_is_copied() {
    assert_eq!(strftime(simple(), "%é").unwrap(), "%é");
    assert_eq!(strftime(simple(), "%-_é %Y").unwrap(), "%-_é 2022");
    assert_eq!(strftime(simple(), "é%Y").unwrap(), "é2022");
}

#[test]
fn strftime_twelve_hour_clock_edges() {
    let midnight = datetime(2022, 1, 3, (0, 5, 0), 0, (0, 0));
    assert_eq!(strftime(midnight, "%I %p %r").unwrap(), "12 AM 12:05:00 AM");
    let noon = datetime(2022, 1, 3, (12, 5, 0), 0, (0, 0));
    assert_eq!(strftime(noon, "%I %p %P").unwrap(), "12 PM pm");
    let evening = datetime(2022, 1, 3, (23, 5, 0), 0, (0, 0));
    assert_eq!(strftime(evening, "%l%P").unwrap(), "11pm");
}

#[test]
fn format_errors_describe_themselves() {
    assert_eq!(
        DateFormatError::NoFormatSpecifier.to_string(),
        "no format specifier following '%'"
    );
    assert_eq!(
        DateFormatError::NoFormatSpecifierAfterModifier.to_string(),
        "no format specifier following '%' with a format modifier"
    );
    let e = strftime(simple(), "%18446744073709551616d").unwrap_err();
    assert_eq!(
        e.to_string(),
        "failed to parse padding width: number too large to fit in target type"
    );
    assert!(e.source().is_some());
    assert!(DateFormatError::NoFormatSpecifier.source().is_none());
}
