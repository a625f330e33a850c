use rquickjs_utils::date::{Date, DateArg, DateError};

// Fixed timestamp: 2024-01-15T10:30:45.123Z (Monday)
const TEST_TS: i64 = 1705314645123;

fn setup_date(ts: i64) -> Date {
    Date { timestamp_ms: ts }
}

fn int_arg(i: i32) -> DateArg {
    DateArg { number: Some(i as i64), int: Some(i), text: None }
}

fn text_arg(s: &str) -> DateArg {
    DateArg { number: None, int: None, text: Some(s.to_string()) }
}

#[test]
fn test_utc_getters() {
    let date = setup_date(TEST_TS);
    assert_eq!(date.time(), TEST_TS);
    assert_eq!(date.utc_full_year(), 2024);
    assert_eq!(date.utc_month(), 0); // January = 0
    assert_eq!(date.utc_date(), 15);
    assert_eq!(date.utc_hours(), 10);
    assert_eq!(date.utc_minutes(), 30);
    assert_eq!(date.utc_seconds(), 45);
    assert_eq!(date.utc_milliseconds(), 123);
    assert_eq!(date.utc_day(), 1); // Monday
}

#[test]
fn test_to_iso_string() {
    let date = setup_date(TEST_TS);
    assert_eq!(date.to_iso_string(), "2024-01-15T10:30:45.123Z");
}

#[test]
fn test_value_of_and_json() {
    let date = setup_date(TEST_TS);
    assert_eq!(date.value_of(), TEST_TS);
    assert_eq!(date.to_json(), "2024-01-15T10:30:45.123Z");
}

#[test]
fn test_static_now() {
    let before = chrono::Utc::now().timestamp_millis();
    let now = Date::now();
    let after = chrono::Utc::now().timestamp_millis();
    assert!(now >= before && now <= after);
}

#[test]
fn utc_string_of_fixed_timestamp() {
    assert_eq!(setup_date(TEST_TS).to_utc_string(), "Mon, 15 Jan 2024 10:30:45 GMT");
    assert_eq!(setup_date(0).to_utc_string(), "Thu, 01 Jan 1970 00:00:00 GMT");
}

#[test]
fn strftime_utc_basic_and_other_layouts() {
    let d = setup_date(TEST_TS);
    assert_eq!(d.strftime_utc("%Y-%m-%d %H:%M:%S".to_string()), "2024-01-15 10:30:45");
    assert_eq!(d.strftime_utc("%A %B".to_string()), "Monday January");
    assert_eq!(d.try_strftime_utc("%Q".to_string()), None);
    assert_eq!(d.try_strftime_utc("%d/%m".to_string()), Some("15/01".to_string()));
    assert_eq!(d.try_strftime("%Q".to_string()), None);
    assert!(d.try_strftime("%Y".to_string()).is_some());
}

#[test]
fn utc_readings_before_the_epoch() {
    // 1969-12-31T23:59:59.999Z
    let d = setup_date(-1);
    assert_eq!(d.utc_full_year(), 1969);
    assert_eq!(d.utc_month(), 11);
    assert_eq!(d.utc_date(), 31);
    assert_eq!(d.utc_hours(), 23);
    assert_eq!(d.utc_minutes(), 59);
    assert_eq!(d.utc_seconds(), 59);
    assert_eq!(d.utc_day(), 3); // Wednesday
    // getUTCMilliseconds keeps the sign of the timestamp; getMilliseconds is 0..=999
    assert_eq!(d.utc_milliseconds(), -1);
    assert_eq!(d.milliseconds(), 999);
    assert_eq!(setup_date(-1000).milliseconds(), 0);
    assert_eq!(setup_date(-1001).milliseconds(), 999);
    assert_eq!(d.to_iso_string(), "1969-12-31T23:59:59.999Z");
}

#[test]
fn leap_day_and_far_years() {
    // 2000-02-29T00:00:00Z
    let d = setup_date(951782400000);
    assert_eq!((d.utc_full_year(), d.utc_month(), d.utc_date()), (2000, 1, 29));
    assert_eq!(d.utc_day(), 2);
    // year 10000 needs a sign in RFC 3339
    let far = setup_date(253402300800000);
    assert_eq!(far.to_iso_string(), "+10000-01-01T00:00:00.000Z");
    let before_zero = setup_date(-62198755200000);
    assert_eq!(before_zero.utc_full_year(), -1);
    assert_eq!(before_zero.to_iso_string(), "-0001-01-01T00:00:00.000Z");
}

#[test]
fn setters_in_utc_follow_the_calendar() {
    let mut d = setup_date(TEST_TS);
    assert_eq!(d.set_utc_date(31), 1706697045123);
    assert_eq!(d.utc_date(), 31);
    // February has no 31st: unchanged
    assert_eq!(d.set_utc_month(1), 1706697045123);
    assert_eq!(d.utc_month(), 0);
    d.set_utc_date(29);
    d.set_utc_month(1);
    assert_eq!((d.utc_month(), d.utc_date()), (1, 29));
    // 2023 has no Feb 29th: unchanged
    let t = d.time();
    assert_eq!(d.set_utc_full_year(2023), t);
    assert_eq!(d.set_utc_full_year(2028), t + 4 * 365 * 86_400_000 + 86_400_000);
    assert_eq!(d.utc_full_year(), 2028);
    // out-of-range fields leave the date as it was
    let t = d.time();
    assert_eq!(d.set_utc_hours(24), t);
    assert_eq!(d.set_utc_minutes(60), t);
    assert_eq!(d.set_utc_seconds(60), t);
    d.set_utc_hours(0);
    d.set_utc_minutes(0);
    d.set_utc_seconds(0);
    assert_eq!((d.utc_hours(), d.utc_minutes(), d.utc_seconds(), d.utc_milliseconds()), (0, 0, 0, 123));
}

#[test]
fn set_time_replaces_the_timestamp() {
    let mut d = setup_date(TEST_TS);
    assert_eq!(d.set_time(42), 42);
    assert_eq!(d.time(), 42);
}

#[test]
fn local_setters_reject_out_of_range_fields() {
    let mut d = setup_date(TEST_TS);
    assert_eq!(d.set_date(0), TEST_TS);
    assert_eq!(d.set_date(32), TEST_TS);
    assert_eq!(d.set_hours(24), TEST_TS);
    assert_eq!(d.set_minutes(60), TEST_TS);
    assert_eq!(d.set_seconds(60), TEST_TS);
    assert_eq!(d.set_month(12), TEST_TS);
    assert_eq!(d.set_milliseconds(-5), TEST_TS);
    d.set_milliseconds(1999);
    assert_eq!(d.milliseconds(), 999);
    d.set_hours(7);
    assert_eq!(d.hours(), 7);
    d.set_minutes(8);
    assert_eq!(d.minutes(), 8);
}

#[test]
fn local_getters_agree_with_local_strings() {
    let d = setup_date(TEST_TS);
    let s = d.to_js_string();
    let expected = format!("{:02}:{:02}:{:02}", d.hours(), d.minutes(), d.seconds());
    assert!(s.contains(&expected));
    assert!(s.starts_with(&d.to_date_string()));
    assert!(s.ends_with(&d.to_time_string()));
    assert!(d.timezone_offset().abs() < 24 * 60);
    assert!(d.month() < 12);
    assert!(d.date() >= 1 && d.date() <= 31);
    assert!(d.day() < 7);
    assert!((d.full_year() - 2024).abs() <= 1);
    assert_eq!(d.strftime("%Y".to_string()), d.full_year().to_string());
}

#[test]
fn constructor_forms() {
    assert_eq!(Date::new(&vec![]).map(|d| d.time() > 0), Ok(true));
    assert_eq!(Date::new(&vec![int_arg(5)]).map(|d| d.time()), Ok(5));
    assert_eq!(
        Date::new(&vec![text_arg("2024-01-15T10:30:45.123Z")]).map(|d| d.time()),
        Ok(TEST_TS)
    );
    assert_eq!(Date::new(&vec![text_arg("not a date")]).map(|d| d.time()), Err(DateError::InvalidDate));
    let other = DateArg { number: None, int: None, text: None };
    assert_eq!(Date::new(&vec![other]).map(|d| d.time()), Err(DateError::InvalidDate));
    let args = vec![int_arg(2024), int_arg(0), int_arg(15), int_arg(10), int_arg(30), int_arg(45), int_arg(123)];
    assert_eq!(Date::new(&args).map(|d| d.time()), Ok(1705314645123));
    let args = vec![int_arg(2024), int_arg(0), int_arg(15), int_arg(10), int_arg(30), int_arg(45)];
    assert_eq!(Date::new(&args).map(|d| d.time()), Ok(1705314645000));
    // milliseconds carry past the second, and may be negative
    let args = vec![int_arg(2024), int_arg(0), int_arg(15), int_arg(10), int_arg(30), int_arg(45), int_arg(1500)];
    assert_eq!(Date::new(&args).map(|d| d.time()), Ok(1705314646500));
    let args = vec![int_arg(2024), int_arg(0), int_arg(15), int_arg(10), int_arg(30), int_arg(45), int_arg(-1)];
    assert_eq!(Date::new(&args).map(|d| d.time()), Ok(1705314644999));
    assert_eq!(Date::new(&vec![int_arg(2024), int_arg(1), int_arg(30)]).map(|d| d.time()), Err(DateError::InvalidDate));
    // two-digit years are taken as they are by the constructor
    assert_eq!(Date::new(&vec![int_arg(99), int_arg(0)]).map(|d| d.utc_full_year()), Ok(99));
}

#[test]
fn utc_static_forms() {
    assert_eq!(Date::utc(&vec![]), Err(DateError::UtcNeedsArgument));
    assert_eq!(Date::utc(&vec![int_arg(2024), int_arg(0), int_arg(15), int_arg(10), int_arg(30), int_arg(45)]), Ok(1705314645000));
    // years 0..=99 mean 1900..=1999
    assert_eq!(Date::utc(&vec![int_arg(99)]), Ok(915148800000));
    assert_eq!(Date::utc(&vec![int_arg(99), int_arg(0)]), Date::utc(&vec![int_arg(1999), int_arg(0)]));
    assert_eq!(Date::utc(&vec![int_arg(0), int_arg(5), int_arg(3)]), Date::utc(&vec![int_arg(1900), int_arg(5), int_arg(3)]));
    assert_eq!(Date::utc(&vec![int_arg(100)]).map(|t| Date { timestamp_ms: t }.utc_full_year()), Ok(100));
    assert_eq!(Date::utc(&vec![int_arg(2024), int_arg(12)]), Err(DateError::InvalidDate));
    assert_eq!(Date::utc(&vec![int_arg(2024), int_arg(0), int_arg(1), int_arg(24)]), Err(DateError::InvalidDate));
    assert_eq!(DateError::UtcNeedsArgument.message(), "Date.UTC requires at least one argument");
    assert_eq!(DateError::InvalidDate.message(), "Invalid Date");
    assert_eq!(DateError::ParseFailed.message(), "Date Error");
}

#[test]
fn parse_forms() {
    assert_eq!(Date::parse("2024-01-15T10:30:45.123Z".to_string()), Ok(TEST_TS));
    assert_eq!(Date::parse("2024-01-15T11:30:45.123+01:00".to_string()), Ok(TEST_TS));
    assert_eq!(Date::parse("2024-01-15".to_string()), Ok(1705276800000));
    assert_eq!(Date::parse("2024/01/15".to_string()), Ok(1705276800000));
    assert_eq!(Date::parse("01/15/2024".to_string()), Ok(1705276800000));
    assert_eq!(Date::parse("15-01-2024".to_string()), Ok(1705276800000));
    assert_eq!(Date::parse("2024-01-15 10:30:45".to_string()), Ok(1705314645000));
    assert_eq!(Date::parse("2024-01-15T10:30:45".to_string()), Ok(1705314645000));
    assert_eq!(Date::parse("Mon, 15 Jan 2024 10:30:45 GMT".to_string()), Ok(1705314645000));
    assert_eq!(Date::parse("yesterday".to_string()), Err(DateError::ParseFailed));
    assert_eq!(rquickjs_utils::parse::parse_date_string("yesterday"), Err("Invalid date format".to_string()));
}

#[test]
fn month_minus_one_names_no_date() {
    assert_eq!(Date::new(&vec![int_arg(2024), int_arg(-1)]).map(|d| d.time()), Err(DateError::InvalidDate));
    assert_eq!(Date::utc(&vec![int_arg(2024), int_arg(-1), int_arg(3)]), Err(DateError::InvalidDate));
    let mut d = setup_date(TEST_TS);
    assert_eq!(d.set_month(u32::MAX), TEST_TS);
    assert_eq!(d.set_utc_month(u32::MAX), TEST_TS);
}

#[test]
fn utc_string_parses_back_to_the_second() {
    for t in [TEST_TS, 0, -1, 951782400999, 253402300799999, -62135596800000] {
        let d = setup_date(t);
        assert_eq!(Date::parse(d.to_utc_string()), Ok(t - t.rem_euclid(1000)));
    }
}

#[test]
fn local_strings_of_one_reading() {
    let d = setup_date(TEST_TS);
    let full = d.to_js_string();
    assert_eq!(full, format!("{} {}", d.to_date_string(), d.to_time_string()));
    let named = d.try_strftime("%A %B %Z".to_string()).expect("chrono knows these");
    assert!(named.contains("day "));
    assert!(d.try_strftime("%Q".to_string()).is_none());
    assert!(d.try_strftime_utc("%Q".to_string()).is_none());
    assert_eq!(d.strftime_utc("%A %B".to_string()), "Monday January");
}
