use chronogrog::text::{decimal_string, signed_decimal_string};
use chronogrog::time::{DateTime, Duration, Period, MAX_INSTANT, MIN_INSTANT};
use chronogrog::util::{
    convert_string_to_duration, get_duration_in_hours, get_naive_date_time_from_string,
    get_space_indent, is_duration_string_sound, read_duration, DateParseError, DurationError,
};

#[test]
fn durations_read_from_text() {
    assert_eq!(Some(Duration::days(180)), convert_string_to_duration("6m"));
    assert_eq!(Some(Duration::days(28)), convert_string_to_duration("4w"));
    assert_eq!(Some(Duration::days(10)), convert_string_to_duration("10d"));
    assert_eq!(Some(Duration::hours(1)), convert_string_to_duration("1h"));
    assert_eq!(None, convert_string_to_duration(""));
    assert_eq!(None, convert_string_to_duration("25x"));
    assert_eq!(Some(Duration::days(7)), convert_string_to_duration("7"));
    assert_eq!(Some(Duration::days(-3)), convert_string_to_duration("-3d"));
    assert_eq!(Some(Duration::hours(5)), convert_string_to_duration("+5h"));
    assert_eq!(Some(Duration::seconds(0)), convert_string_to_duration("0"));
}

#[test]
fn a_bad_amount_fails_hard() {
    assert!(!is_duration_string_sound("xd"));
    assert!(!is_duration_string_sound("x"));
    assert!(!is_duration_string_sound("1.5d"));
    assert!(!is_duration_string_sound("-"));
    assert_eq!(Err(DurationError::BadAmount), read_duration("d"));
    assert_eq!(Err(DurationError::BadAmount), read_duration("99999999999999999999d"));
    assert_eq!(Err(DurationError::OutOfRange), read_duration("9999999999999m"));
    assert!(is_duration_string_sound("25x"));
    assert!(is_duration_string_sound(""));
    assert_eq!(Ok(None), read_duration("25x"));
    assert_eq!(Ok(Some(Duration::weeks(3))), read_duration("3w"));
}

#[test]
fn the_longest_spans_are_accepted() {
    assert_eq!(Some(Duration::seconds(106751991167 * 86400)), convert_string_to_duration("106751991167d"));
    assert!(!is_duration_string_sound("106751991168d"));
}

#[test]
fn dates_and_date_times_are_read() {
    let at = |y, m, d, h, mi, s| {
        chrono::NaiveDate::from_ymd_opt(y, m, d).unwrap().and_hms_opt(h, mi, s).unwrap().and_utc().timestamp()
    };
    assert_eq!(Ok(DateTime::from_timestamp(at(2020, 1, 1, 0, 0, 0))), get_naive_date_time_from_string("2020-01-01"));
    assert_eq!(
        Ok(DateTime::from_timestamp(at(2020, 1, 11, 0, 0, 1))),
        get_naive_date_time_from_string("2020-01-11 00:00:01")
    );
    assert_eq!(Err(DateParseError::Invalid), get_naive_date_time_from_string("01/01/2020"));
    assert_eq!(Err(DateParseError::TooShort), get_naive_date_time_from_string("2020-01"));
    assert_eq!(Err(DateParseError::TooLong), get_naive_date_time_from_string("2020-01-01 00:00:00 UTC"));
    assert_eq!(Err(DateParseError::OutOfRange), get_naive_date_time_from_string("2020-13-01"));
    assert!(get_naive_date_time_from_string("").is_err());
}

#[test]
fn the_calendar_range_matches_chrono() {
    assert_eq!(MIN_INSTANT, chrono::NaiveDateTime::MIN.and_utc().timestamp());
    assert_eq!(MAX_INSTANT, chrono::NaiveDateTime::MAX.and_utc().timestamp());
    let last = DateTime::from_timestamp(MAX_INSTANT);
    assert_eq!(None, last.checked_add(Duration::seconds(1)));
    assert_eq!(Some(last), DateTime::from_timestamp(MAX_INSTANT - 1).checked_add(Duration::seconds(1)));
}

#[test]
fn periods_intersect_on_shared_boundaries() {
    let a = Period::new(DateTime::from_timestamp(0), DateTime::from_timestamp(10));
    let b = Period::new(DateTime::from_timestamp(10), DateTime::from_timestamp(20));
    let c = Period::new(DateTime::from_timestamp(11), DateTime::from_timestamp(20));
    let inner = Period::new(DateTime::from_timestamp(2), DateTime::from_timestamp(3));
    assert!(a.intersects_with(b));
    assert!(b.intersects_with(a));
    assert!(!a.intersects_with(c));
    assert!(!c.intersects_with(a));
    assert!(a.intersects_with(inner));
    assert!(inner.intersects_with(a));
    assert_eq!(Duration::seconds(10), a.duration());
}

#[test]
fn hours_round_toward_zero() {
    assert_eq!(240, get_duration_in_hours(Duration::days(10)));
    assert_eq!(1, get_duration_in_hours(Duration::seconds(7199)));
    assert_eq!(-1, get_duration_in_hours(Duration::seconds(-7199)));
    assert_eq!(0, get_duration_in_hours(Duration::seconds(3599)));
}

#[test]
fn numbers_and_indents_as_text() {
    assert_eq!("0", decimal_string(0));
    assert_eq!("1234567890", decimal_string(1234567890));
    assert_eq!("18446744073709551615", decimal_string(u64::MAX));
    assert_eq!("-9223372036854775808", signed_decimal_string(i64::MIN));
    assert_eq!("-42", signed_decimal_string(-42));
    assert_eq!("", get_space_indent(0));
    assert_eq!("      ", get_space_indent(3));
}

#[test]
fn midnight_is_recognised() {
    assert!(DateTime::from_timestamp(0).is_midnight());
    assert!(DateTime::from_timestamp(-86400).is_midnight());
    assert!(!DateTime::from_timestamp(-1).is_midnight());
    assert!(!DateTime::from_timestamp(3600).is_midnight());
}
