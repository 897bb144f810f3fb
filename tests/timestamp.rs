use gh_analyzer::decimal::{parse_u16, parse_u8, remove_padding};
use gh_analyzer::{ISO8601Date, TimestampFault};

#[test]
fn padded_timestamp_fields() {
    let d = ISO8601Date::parse("2023-01-05T08:09:10Z").unwrap();
    assert_eq!(d.year, 2023);
    assert_eq!(d.month, 1);
    assert_eq!(d.day, 5);
    assert_eq!(d.hours, 8);
    assert_eq!(d.minutes, 9);
    assert_eq!(d.seconds, 10);
    assert_eq!(d.tz, "Z");
    assert_eq!(d.as_date_str(), "2023-01-05");
}

#[test]
fn unpadded_timestamp_fields() {
    // The clock is the first eight characters after the `T`: here `8:9:10+0`,
    // whose seconds `10+0` are no number.
    let e = ISO8601Date::parse("2023-1-5T8:9:10+00:00").unwrap_err();
    assert_eq!(e.reason, TimestampFault::TimeField);
    let d = ISO8601Date::parse("2023-1-5T8:9:0010+00:00").unwrap();
    assert_eq!(
        (d.year, d.month, d.day, d.hours, d.minutes, d.seconds),
        (2023, 1, 5, 8, 9, 10)
    );
    assert_eq!(d.tz, "+00:00");
    assert_eq!(d.as_date_str(), "2023-01-05");
}

#[test]
fn missing_separator_fails() {
    let e = ISO8601Date::parse("not-a-timestamp").unwrap_err();
    assert_eq!(e.reason, TimestampFault::MissingSeparator);
    assert_eq!(e.raw, "not-a-timestamp");
    assert_eq!(e.reason.message(), "missing date/time separator");
}

#[test]
fn short_time_fails() {
    let e = ISO8601Date::parse("2023-01-01T00:00").unwrap_err();
    assert_eq!(e.reason, TimestampFault::TimeTooShort);
    assert_eq!(e.raw, "2023-01-01T00:00");
}

#[test]
fn serialize_returns_raw_text() {
    for s in [
        "2023-01-05T08:09:10Z",
        "2023-1-5T8:9:0010+00:00",
        "0002-000-0T00:00:00.123456Z",
        "2023-01-05T08:09:10",
    ] {
        let d = ISO8601Date::parse(s).unwrap();
        assert_eq!(d.serialize(), s);
        assert_eq!(d.raw, s);
        let again = ISO8601Date::parse(&d.serialize()).unwrap();
        assert_eq!(again.serialize(), s);
        assert_eq!((again.year, again.month, again.day), (d.year, d.month, d.day));
        assert_eq!(again.tz, d.tz);
    }
}

#[test]
fn zone_is_kept_verbatim() {
    let d = ISO8601Date::parse("2023-01-05T08:09:10.5xyz").unwrap();
    assert_eq!(d.tz, ".5xyz");
    let d = ISO8601Date::parse("2023-01-05T08:09:10").unwrap();
    assert_eq!(d.tz, "");
}

#[test]
fn all_zero_fields_read_as_zero() {
    let d = ISO8601Date::parse("0000-00-00T00:00:00Z").unwrap();
    assert_eq!(
        (d.year, d.month, d.day, d.hours, d.minutes, d.seconds),
        (0, 0, 0, 0, 0, 0)
    );
    assert_eq!(d.as_date_str(), "0-00-00");
}

#[test]
fn date_key_pads_month_and_day_only() {
    let d = ISO8601Date::parse("7-12-31T23:59:59Z").unwrap();
    assert_eq!(d.as_date_str(), "7-12-31");
    let d = ISO8601Date::parse("65535-255-255T255:255:255").unwrap();
    assert_eq!((d.hours, d.minutes, d.seconds), (255, 255, 0));
    assert_eq!(d.tz, "255");
    let d = ISO8601Date::parse("65535-255-255T25:25:25").unwrap();
    assert_eq!(d.as_date_str(), "65535-255-255");
}

#[test]
fn date_segment_count_fails() {
    let e = ISO8601Date::parse("2023-01T08:09:10Z").unwrap_err();
    assert_eq!(e.reason, TimestampFault::DateSegments);
    let e = ISO8601Date::parse("2023-01-05-07T08:09:10Z").unwrap_err();
    assert_eq!(e.reason, TimestampFault::DateSegments);
}

#[test]
fn date_field_overflow_fails() {
    let e = ISO8601Date::parse("65536-01-05T08:09:10Z").unwrap_err();
    assert_eq!(e.reason, TimestampFault::DateField);
    let e = ISO8601Date::parse("2023-256-05T08:09:10Z").unwrap_err();
    assert_eq!(e.reason, TimestampFault::DateField);
    let e = ISO8601Date::parse("2023-01-xxT08:09:10Z").unwrap_err();
    assert_eq!(e.reason, TimestampFault::DateField);
}

#[test]
fn empty_field_reads_as_zero() {
    let d = ISO8601Date::parse("-01-05T::::::::Z").unwrap();
    assert_eq!((d.year, d.hours, d.minutes, d.seconds), (0, 0, 0, 0));
    assert_eq!(d.tz, "Z");
}

#[test]
fn time_field_faults() {
    let e = ISO8601Date::parse("2023-01-05T08-09-10Z").unwrap_err();
    assert_eq!(e.reason, TimestampFault::TimeField);
    let e = ISO8601Date::parse("2023-01-05T08:09:1xZ").unwrap_err();
    assert_eq!(e.reason, TimestampFault::TimeField);
    assert_eq!(e.reason.message(), "invalid hours, minutes or seconds");
}

#[test]
fn fourth_clock_part_is_ignored() {
    let d = ISO8601Date::parse("2023-01-05T1:2:3:45Z").unwrap();
    assert_eq!((d.hours, d.minutes, d.seconds), (1, 2, 3));
    assert_eq!(d.tz, "Z");
}

#[test]
fn date_fault_comes_before_time_fault() {
    let e = ISO8601Date::parse("2023-01T00:00").unwrap_err();
    assert_eq!(e.reason, TimestampFault::DateSegments);
}

#[test]
fn padding_removal() {
    assert_eq!(remove_padding("000"), "0");
    assert_eq!(remove_padding(""), "0");
    assert_eq!(remove_padding("007"), "7");
    assert_eq!(remove_padding("100"), "100");
    assert_eq!(remove_padding("0a0"), "a0");
}

#[test]
fn bounded_integer_parsing() {
    assert_eq!(parse_u8("255"), Some(255));
    assert_eq!(parse_u8("256"), None);
    assert_eq!(parse_u8("+7"), Some(7));
    assert_eq!(parse_u8("+"), None);
    assert_eq!(parse_u8(""), None);
    assert_eq!(parse_u8("-1"), None);
    assert_eq!(parse_u8("1 "), None);
    assert_eq!(parse_u16("65535"), Some(65535));
    assert_eq!(parse_u16("65536"), None);
    assert_eq!(parse_u16("99999999999999999999"), None);
    assert_eq!(parse_u16("0042"), Some(42));
}
