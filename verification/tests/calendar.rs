use date::calendar::days_in_month;
use date::calendar::is_leap_year;
use date::Date;
use date::DateError;
use date::DateInterval;
use date::Weekday;

fn date(year: i16, month: u8, day: u8) -> Date {
    Date::try_new(year, month, day).expect("a day of the calendar")
}

#[test]
fn test_internal_repr() {
    assert!(date(1969, 12, 31).to_epoch_day() == -1);
    assert!(date(1970, 1, 1).to_epoch_day() == 0);
    assert!(date(1970, 1, 2).to_epoch_day() == 1);
}

#[test]
fn test_to_sql() {
    // The number that a column of days since 1970-01-01 holds for the date.
    let dt = date(2012, 4, 21);
    assert!(dt.to_epoch_day() == 15_451);
    assert!(Date::from_epoch_day(15_451) == Some(dt));
}

#[test]
fn test_ymd_readback() {
    for year in [2020, 2022, 2100] {
        for month in 1..=12 {
            let days = match month {
                1 | 3 | 5 | 7 | 8 | 10 | 12 => 31,
                4 | 6 | 9 | 11 => 30,
                2 => match is_leap_year(year) {
                    true => 29,
                    false => 28,
                },
                _ => panic!("Unreachable"),
            };
            for day in 1..=days {
                let date = Date::new(year, month, day);
                assert!(date.year() == year);
                assert!(date.month() == month);
                assert!(date.day() == day);
            }
        }
    }
}

fn overflows_to(from: (i16, u8, u8), to: (i16, u8, u8)) {
    let date1 = Date::overflowing_new(from.0, from.1, from.2);
    let date2 = Date::new(to.0, to.1, to.2);
    assert!(date1 == date2, "{:?} gives {:?}, not {:?}", from, date1.ymd(), to);
}

#[test]
fn test_ymd_overflow() {
    overflows_to((2022, 1, 32), (2022, 2, 1));
    overflows_to((2022, 2, 29), (2022, 3, 1));
    overflows_to((2022, 3, 32), (2022, 4, 1));
    overflows_to((2022, 4, 31), (2022, 5, 1));
    overflows_to((2022, 5, 32), (2022, 6, 1));
    overflows_to((2022, 6, 31), (2022, 7, 1));
    overflows_to((2022, 7, 32), (2022, 8, 1));
    overflows_to((2022, 8, 32), (2022, 9, 1));
    overflows_to((2022, 9, 31), (2022, 10, 1));
    overflows_to((2022, 10, 32), (2022, 11, 1));
    overflows_to((2022, 11, 31), (2022, 12, 1));
    overflows_to((2022, 12, 32), (2023, 1, 1));
    overflows_to((2022, 0, 0), (2021, 11, 30));
    overflows_to((2022, 1, 0), (2021, 12, 31));
    overflows_to((2022, 2, 0), (2022, 1, 31));
    overflows_to((2022, 3, 0), (2022, 2, 28));
    overflows_to((2022, 4, 0), (2022, 3, 31));
    overflows_to((2022, 5, 0), (2022, 4, 30));
    overflows_to((2022, 6, 0), (2022, 5, 31));
    overflows_to((2022, 7, 0), (2022, 6, 30));
    overflows_to((2022, 8, 0), (2022, 7, 31));
    overflows_to((2022, 9, 0), (2022, 8, 31));
    overflows_to((2022, 10, 0), (2022, 9, 30));
    overflows_to((2022, 11, 0), (2022, 10, 31));
    overflows_to((2022, 12, 0), (2022, 11, 30));
    overflows_to((2020, 2, 30), (2020, 3, 1));
    overflows_to((2020, 3, 0), (2020, 2, 29));
    overflows_to((2022, 1, 45), (2022, 2, 14));
    overflows_to((2022, 13, 15), (2023, 1, 15));
    overflows_to((2022, 0, 15), (2021, 12, 15));
}

#[test]
fn test_ymd_overflow_far() {
    overflows_to((2022, 255, 255), (2043, 11, 10));
    overflows_to((2022, 24, 0), (2023, 11, 30));
    overflows_to((2019, 14, 29), (2020, 2, 29));
    overflows_to((32767, 13, 0), (32767, 12, 31));
    overflows_to((-32768, 1, 1), (-32768, 1, 1));
}

#[test]
fn test_try_overflowing_new() {
    for (from, to) in [
        ((2022, 1, 32), (2022, 2, 1)),
        ((2022, 0, 0), (2021, 11, 30)),
        ((2022, 13, 15), (2023, 1, 15)),
        ((2022, 255, 255), (2043, 11, 10)),
        ((32767, 13, 0), (32767, 12, 31)),
        ((32767, 12, 31), (32767, 12, 31)),
        ((-32768, 0, 32), (-32768, 1, 1)),
        ((-32768, 0, 255), (-32768, 8, 11)),
        ((-32768, 1, 1), (-32768, 1, 1)),
    ] {
        let rolled = Date::try_overflowing_new(from.0, from.1, from.2);
        assert!(rolled == Some(Date::new(to.0, to.1, to.2)), "{:?}", from);
        assert!(rolled == Some(Date::overflowing_new(from.0, from.1, from.2)), "{:?}", from);
    }
    assert!(Date::try_overflowing_new(32767, 12, 32).is_none());
    assert!(Date::try_overflowing_new(32767, 13, 1).is_none());
    assert!(Date::try_overflowing_new(32767, 14, 0).is_none());
    assert!(Date::try_overflowing_new(32767, 255, 0).is_none());
    assert!(Date::try_overflowing_new(-32768, 1, 0).is_none());
    assert!(Date::try_overflowing_new(-32768, 0, 31).is_none());
    assert!(Date::try_overflowing_new(-32768, 0, 0).is_none());
    for year in [-32768, -1, 0, 1999, 2000, 32767] {
        for month in 0..=255 {
            for day in 0..=255 {
                if let Some(date) = Date::try_overflowing_new(year, month, day) {
                    assert!(date == Date::overflowing_new(year, month, day));
                }
            }
        }
    }
}

#[test]
fn test_week() {
    assert!(date(2022, 1, 1).week() == 0); // Saturday
    assert!(date(2022, 1, 2).week() == 1); // Sunday
    assert!(date(2023, 1, 1).week() == 1); // Sunday
    assert!(date(2023, 12, 31).week() == 53); // Sunday
    assert!(date(2024, 1, 1).week() == 0); // Monday
    assert!(date(2024, 1, 7).week() == 1); // Sunday
    assert!(date(2024, 1, 8).week() == 1); // Monday
    assert!(date(2024, 1, 14).week() == 2); // Sunday
}

#[test]
fn test_week_counts_from_the_first_sunday() {
    // Every day from the first Sunday of the year on is in week 1 or later.
    assert!(date(2022, 1, 3).week() == 1); // Monday
    assert!(date(2022, 1, 8).week() == 1); // Saturday
    assert!(date(2022, 1, 9).week() == 2); // Sunday
    assert!(date(2012, 4, 21).week() == 16);
    assert!(date(1969, 12, 31).week() == 52);
    assert!(date(-1, 1, 1).week() == 0); // Friday
    assert!(date(-1, 1, 3).week() == 1); // Sunday
}

#[test]
fn test_weekday() {
    let mut date = date(2019, 12, 29); // A Sunday.
    for weekday in [
        Weekday::Sunday,
        Weekday::Monday,
        Weekday::Tuesday,
        Weekday::Wednesday,
        Weekday::Thursday,
        Weekday::Friday,
        Weekday::Saturday,
    ]
    .into_iter()
    .cycle()
    {
        assert!(date.weekday() == weekday, "Incorrect on: {:?}", date);
        date += DateInterval::new(1);
        if date.year() == 2022 && date.month() == 2 {
            break;
        }
    }

    // Also check some random dates in other centuries.
    assert!(Date::new(1700, 1, 1).weekday() == Weekday::Friday);
    assert!(Date::new(1800, 1, 1).weekday() == Weekday::Wednesday);
    assert!(Date::new(1900, 1, 1).weekday() == Weekday::Monday);
    assert!(Date::new(2000, 1, 1).weekday() == Weekday::Saturday);
    assert!(Date::new(2100, 1, 1).weekday() == Weekday::Friday);
    assert!(Date::new(2200, 1, 1).weekday() == Weekday::Wednesday);
    assert!(Date::new(2300, 1, 1).weekday() == Weekday::Monday);
    assert!(Date::new(2400, 1, 1).weekday() == Weekday::Saturday);
    assert!(Date::new(2500, 1, 1).weekday() == Weekday::Friday);

    // And some around now...
    assert!(Date::new(2021, 7, 4).weekday() == Weekday::Sunday);
    assert!(Date::new(2024, 3, 31).weekday() == Weekday::Sunday);
    assert!(Date::new(2024, 11, 28).weekday() == Weekday::Thursday);
}

#[test]
fn test_weekday_before_1970() {
    assert!(Date::new(1969, 12, 31).weekday() == Weekday::Wednesday);
    assert!(Date::new(1969, 12, 28).weekday() == Weekday::Sunday);
    assert!(Date::new(1, 1, 1).weekday() == Weekday::Monday);
    assert!(Date::min_value().weekday() == Weekday::Thursday);
    assert!(Date::max_value().weekday() == Weekday::Sunday);
}

#[test]
fn weekday_test_display() {
    for (weekday, weekday_str, weekday_abbv_str) in [
        (Weekday::Sunday, "Sunday", "Sun"),
        (Weekday::Monday, "Monday", "Mon"),
        (Weekday::Tuesday, "Tuesday", "Tue"),
        (Weekday::Wednesday, "Wednesday", "Wed"),
        (Weekday::Thursday, "Thursday", "Thu"),
        (Weekday::Friday, "Friday", "Fri"),
        (Weekday::Saturday, "Saturday", "Sat"),
    ] {
        assert!(weekday.to_string() == weekday_str);
        assert!(weekday.abbv() == weekday_abbv_str);
        assert!(weekday.name() == weekday_str);
    }
}

#[test]
fn test_weekday_numbers_and_order() {
    assert!(Weekday::Sunday.number() == 0);
    assert!(Weekday::Wednesday.number() == 3);
    assert!(Weekday::Saturday.number() == 6);
    assert!(Weekday::Sunday < Weekday::Monday);
    assert!(Weekday::Saturday > Weekday::Friday);
}

#[test]
fn test_easter() {
    assert!(Date::easter(2013) == date(2013, 3, 31));
    assert!(Date::easter(2014) == date(2014, 4, 20));
    assert!(Date::easter(2015) == date(2015, 4, 5));
    assert!(Date::easter(2016) == date(2016, 3, 27));
    assert!(Date::easter(2017) == date(2017, 4, 16));
    assert!(Date::easter(2018) == date(2018, 4, 1));
    assert!(Date::easter(2019) == date(2019, 4, 21));
    assert!(Date::easter(2020) == date(2020, 4, 12));
    assert!(Date::easter(2021) == date(2021, 4, 4));
    assert!(Date::easter(2022) == date(2022, 4, 17));
    assert!(Date::easter(2023) == date(2023, 4, 9));
    assert!(Date::easter(2024) == date(2024, 3, 31));
    assert!(Date::easter(2025) == date(2025, 4, 20));
    assert!(Date::easter(2026) == date(2026, 4, 5));
    assert!(Date::easter(2027) == date(2027, 3, 28));
    assert!(Date::easter(2028) == date(2028, 4, 16));
    assert!(Date::easter(2029) == date(2029, 4, 1));
    assert!(Date::easter(2030) == date(2030, 4, 21));
    assert!(Date::easter(2031) == date(2031, 4, 13));
    assert!(Date::easter(2032) == date(2032, 3, 28));
    assert!(Date::easter(2033) == date(2033, 4, 17));
    assert!(Date::easter(2034) == date(2034, 4, 9));
    assert!(Date::easter(2035) == date(2035, 3, 25));
}

#[test]
fn test_easter_extremes() {
    assert!(Date::easter(1818) == date(1818, 3, 22));
    assert!(Date::easter(1943) == date(1943, 4, 25));
    assert!(Date::easter(2038) == date(2038, 4, 25));
    for year in 0..=32767 {
        assert!(Date::easter(year).weekday() == Weekday::Sunday);
    }
}

#[test]
fn test_leap_years() {
    assert!(is_leap_year(2000));
    assert!(!is_leap_year(1900));
    assert!(is_leap_year(2024));
    assert!(!is_leap_year(2023));
    assert!(is_leap_year(0));
    assert!(is_leap_year(-4));
    assert!(!is_leap_year(-100));
    assert!(is_leap_year(-400));
    assert!(!is_leap_year(-1));
}

#[test]
fn test_days_in_month() {
    assert!(days_in_month(2023, 1) == 31);
    assert!(days_in_month(2023, 2) == 28);
    assert!(days_in_month(2024, 2) == 29);
    assert!(days_in_month(1900, 2) == 28);
    assert!(days_in_month(2023, 4) == 30);
    assert!(days_in_month(2023, 12) == 31);
}

#[test]
fn test_try_new() {
    assert!(Date::try_new(2012, 4, 21) == Ok(date(2012, 4, 21)));
    assert!(Date::try_new(2012, 13, 1) == Err(DateError::MonthOutOfBounds));
    assert!(Date::try_new(2012, 0, 1) == Err(DateError::MonthOutOfBounds));
    assert!(Date::try_new(2012, 4, 31) == Err(DateError::DayOutOfBounds));
    assert!(Date::try_new(2012, 4, 0) == Err(DateError::DayOutOfBounds));
    assert!(Date::try_new(2012, 2, 30) == Err(DateError::DayOutOfBounds));
    assert!(Date::try_new(2100, 2, 29) == Err(DateError::NotLeapYear));
    assert!(Date::try_new(2000, 2, 29).is_ok());
}

#[test]
fn test_round_trip_everywhere() {
    // To number a day and to look the number up again gives the day back, and the other way
    // round, from the first date to the last.
    let mut day = Date::min_value().to_epoch_day();
    let last = Date::max_value().to_epoch_day();
    assert!(day == -12_687_794);
    assert!(last == 11_248_737);
    let mut expected = (-32768i16, 1u8, 1u8);
    while day <= last {
        let date = Date::from_epoch_day(day).expect("a day in range");
        let ymd = date.ymd();
        assert!(ymd == expected);
        assert!(Date::new(ymd.0, ymd.1, ymd.2).to_epoch_day() == day);
        expected = if ymd.2 < days_in_month(ymd.0, ymd.1) {
            (ymd.0, ymd.1, ymd.2 + 1)
        } else if ymd.1 < 12 {
            (ymd.0, ymd.1 + 1, 1)
        } else if ymd.0 < 32767 {
            (ymd.0 + 1, 1, 1)
        } else {
            expected
        };
        day += 1;
    }
    assert!(Date::from_epoch_day(last + 1).is_none());
    assert!(Date::from_epoch_day(-12_687_795).is_none());
}

#[test]
fn test_years_zero_and_before() {
    assert!(date(0, 1, 1).to_epoch_day() == -719_528);
    assert!(date(0, 3, 1).ymd() == (0, 3, 1));
    assert!(date(0, 2, 29).ymd() == (0, 2, 29));
    assert!(date(-1, 12, 31).to_epoch_day() == -719_529);
    assert!(date(-1, 12, 31).ymd() == (-1, 12, 31));
    assert!(date(-400, 2, 29).ymd() == (-400, 2, 29));
    assert!(date(1, 1, 1).to_epoch_day() == -719_162);
}

#[test]
fn test_day_of_year() {
    assert!(date(2012, 1, 1).day_of_year() == 1);
    assert!(date(2012, 4, 21).day_of_year() == 112);
    assert!(date(2012, 12, 31).day_of_year() == 366);
    assert!(date(2013, 12, 31).day_of_year() == 365);
    assert!(Date::min_value().day_of_year() == 1);
    assert!(Date::max_value().day_of_year() == 365);
}

#[test]
fn test_timestamp() {
    assert!(Date::from_timestamp(0) == date(1970, 1, 1));
    assert!(Date::from_timestamp(-1) == date(1969, 12, 31));
    assert!(Date::from_timestamp(15_451 * 86_400) == date(2012, 4, 21));
    assert!(Date::from_timestamp(-11_790 * 86_400) == date(1937, 9, 21));
    assert!(Date::from_timestamp(86_399) == date(1970, 1, 1));
    assert!(Date::from_timestamp(86_400) == date(1970, 1, 2));
    assert!(Date::from_timestamp(-86_400) == date(1969, 12, 31));
    assert!(Date::from_timestamp(-86_401) == date(1969, 12, 30));
    assert!(date(1969, 12, 31).timestamp() == -86_400);
    assert!(date(1970, 1, 1).timestamp() == 0);
    assert!(date(1970, 1, 5).timestamp() == 4 * 86_400);
    assert!(date(2012, 4, 21).timestamp() == 1334966400);
    assert!(Date::try_from_timestamp(0) == Some(date(1970, 1, 1)));
    assert!(Date::try_from_timestamp(971_890_963_199) == Some(Date::max_value()));
    assert!(Date::try_from_timestamp(971_890_963_200).is_none());
    assert!(Date::try_from_timestamp(-1_096_225_401_600) == Some(Date::min_value()));
    assert!(Date::try_from_timestamp(-1_096_225_401_601).is_none());
    assert!(Date::try_from_timestamp(i64::MAX).is_none());
    assert!(Date::try_from_timestamp(i64::MIN).is_none());
}

#[test]
fn test_order() {
    assert!(date(2012, 4, 21) < date(2012, 4, 22));
    assert!(date(2012, 4, 21) <= date(2012, 4, 21));
    assert!(date(2013, 1, 1) > date(2012, 12, 31));
    assert!(date(-1, 12, 31) < date(0, 1, 1));
    assert!(Date::min_value() < Date::max_value());
    assert!(date(2012, 4, 21).max(date(2012, 4, 22)) == date(2012, 4, 22));
}
