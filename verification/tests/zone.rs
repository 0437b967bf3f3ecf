use date::zone::TimeError;
use date::Date;

fn date(year: i16, month: u8, day: u8) -> Date {
    Date::try_new(year, month, day).expect("a day of the calendar")
}

#[test]
fn test_today() {
    // A day after the beginning of Unix time.
    assert!(Date::from_clock(Some(86_400), 0) == Ok(date(1970, 1, 2)));
    let today = Date::today_utc().expect("a clock that shows a time since 1970");
    assert!(today >= date(2024, 1, 1));
}

#[test]
fn test_today_tz() {
    // A day after the beginning of Unix time, it was still January 1 in New York.
    assert!(Date::from_clock_tz(Some(86_400), "America/New_York") == Ok(date(1970, 1, 1)));
    assert!(Date::from_timestamp_tz(86_400, "America/New_York") == Ok(date(1970, 1, 1)));
    assert!(Date::from_clock(Some(86_400), -5 * 3600) == Ok(date(1970, 1, 1)));
    let today = Date::today_utc().unwrap();
    let there = Date::today_tz("America/New_York").unwrap();
    assert!(there == today || there == today - date::DateInterval::new(1));
    if let Ok(here) = Date::today() {
        assert!((here - today).abs().days() <= 1);
    }
}

#[test]
fn test_timestamp_tz() {
    assert!(Date::from_timestamp_tz(1335020400, "America/New_York") == Ok(date(2012, 4, 21)));
    assert!(Date::from_timestamp_tz(0, "America/Los_Angeles") == Ok(date(1969, 12, 31)));
    assert!(date(2012, 4, 21).timestamp_tz("America/New_York") == Ok(1334980800));
}

#[test]
fn test_zone_errors() {
    assert!(Date::from_timestamp_tz(0, "Nowhere/Special") == Err(TimeError::UnknownZone));
    assert!(date(2012, 4, 21).timestamp_tz("Nowhere/Special") == Err(TimeError::UnknownZone));
    assert!(Date::today_tz("Nowhere/Special") == Err(TimeError::UnknownZone));
    assert!(Date::from_timestamp_tz(i64::MAX, "UTC") == Err(TimeError::OutOfRange));
    assert!(Date::from_timestamp_tz(971_890_963_200, "UTC") == Err(TimeError::OutOfRange));
    assert!(Date::from_timestamp_tz(971_890_963_199, "UTC") == Ok(Date::max_value()));
}

#[test]
fn test_zones_differ() {
    // Midnight UTC at the beginning of 2012-04-21.
    let midnight = 1334966400;
    assert!(Date::from_timestamp_tz(midnight, "UTC") == Ok(date(2012, 4, 21)));
    assert!(Date::from_timestamp_tz(midnight, "Asia/Tokyo") == Ok(date(2012, 4, 21)));
    assert!(Date::from_timestamp_tz(midnight - 1, "Asia/Tokyo") == Ok(date(2012, 4, 21)));
    assert!(Date::from_timestamp_tz(midnight - 1, "UTC") == Ok(date(2012, 4, 20)));
    assert!(Date::from_timestamp_tz(midnight, "America/New_York") == Ok(date(2012, 4, 20)));
    assert!(date(2012, 4, 21).timestamp_tz("UTC") == Ok(midnight));
    assert!(date(2012, 4, 21).timestamp_tz("Asia/Tokyo") == Ok(midnight - 9 * 3600));
}

#[test]
fn test_from_timestamp_offset() {
    assert!(Date::from_timestamp_offset(0, 0) == Ok(date(1970, 1, 1)));
    assert!(Date::from_timestamp_offset(0, -1) == Ok(date(1969, 12, 31)));
    assert!(Date::from_timestamp_offset(86_399, 1) == Ok(date(1970, 1, 2)));
    assert!(Date::from_timestamp_offset(i64::MAX, 1) == Err(TimeError::OutOfRange));
    assert!(Date::from_timestamp_offset(i64::MIN, -1) == Err(TimeError::OutOfRange));
}

#[test]
fn test_from_clock_tz() {
    assert!(Date::from_clock_tz(None, "UTC") == Err(TimeError::ClockBeforeEpoch));
    assert!(Date::from_clock_tz(Some(0), "UTC") == Ok(date(1970, 1, 1)));
    assert!(Date::from_clock_tz(Some(0), "America/Los_Angeles") == Ok(date(1969, 12, 31)));
    assert!(Date::from_clock_tz(Some(0), "Nowhere/Special") == Err(TimeError::UnknownZone));
    assert!(Date::from_clock_tz(Some(u64::MAX), "UTC") == Err(TimeError::OutOfRange));
    assert!(Date::from_clock_tz(Some(1335020400), "America/New_York") == Ok(date(2012, 4, 21)));
}

#[test]
fn test_from_clock() {
    assert!(Date::from_clock(None, 0) == Err(TimeError::ClockBeforeEpoch));
    assert!(Date::from_clock(Some(0), 0) == Ok(date(1970, 1, 1)));
    assert!(Date::from_clock(Some(0), -1) == Ok(date(1969, 12, 31)));
    assert!(Date::from_clock(Some(u64::MAX), 0) == Err(TimeError::OutOfRange));
    assert!(Date::from_clock(Some(971_890_963_200), 0) == Err(TimeError::OutOfRange));
}
