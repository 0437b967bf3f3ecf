use date::interval::saturated_date;
use date::Date;
use date::DateInterval;
use date::MonthInterval;

fn date(year: i16, month: u8, day: u8) -> Date {
    Date::try_new(year, month, day).expect("a day of the calendar")
}

fn prove_add(from: (i16, u8, u8), days: i32, to: (i16, u8, u8)) {
    // Check `+`.
    assert!(Date::new(from.0, from.1, from.2) + DateInterval::new(days) == Date::new(to.0, to.1, to.2));

    // Check `+=`.
    let mut date = Date::new(from.0, from.1, from.2);
    date += DateInterval::new(days);
    assert!(date == Date::new(to.0, to.1, to.2));
}

fn prove_sub(from: (i16, u8, u8), days: i32, to: (i16, u8, u8)) {
    // Check `-`.
    assert!(Date::new(from.0, from.1, from.2) - DateInterval::new(days) == Date::new(to.0, to.1, to.2));

    // Check `-=`.
    let mut date = Date::new(from.0, from.1, from.2);
    date -= DateInterval::new(days);
    assert!(date == Date::new(to.0, to.1, to.2));
}

#[test]
fn interval_test_add_sub() {
    // Movement by a day.
    prove_add((2019, 12, 31), 1, (2020, 1, 1));
    prove_add((2020, 12, 31), 1, (2021, 1, 1));
    prove_sub((2020, 1, 1), 1, (2019, 12, 31));
    prove_sub((2021, 1, 1), 1, (2020, 12, 31));
    prove_add((2019, 6, 30), 1, (2019, 7, 1));
    prove_sub((2020, 7, 1), 1, (2020, 6, 30));
    prove_add((2020, 6, 15), 1, (2020, 6, 16));
    prove_sub((2020, 6, 15), 1, (2020, 6, 14));

    // Movement by a month (or so).
    prove_add((2019, 2, 15), 28, (2019, 3, 15));
    prove_add((2020, 2, 15), 29, (2020, 3, 15));
    prove_sub((2019, 3, 15), 28, (2019, 2, 15));
    prove_sub((2020, 3, 15), 29, (2020, 2, 15));

    // Movement by a year.
    prove_add((2019, 6, 30), 366, (2020, 6, 30));
    prove_sub((2019, 6, 30), 365, (2018, 6, 30));

    // Movement by multiple years.
    prove_add((2019, 6, 30), 730, (2021, 6, 29));
    prove_sub((2019, 6, 30), 730, (2017, 6, 30));
    prove_sub((2020, 6, 30), 366, (2019, 6, 30));
    prove_add((2015, 6, 30), 2555, (2022, 6, 28)); // 2555 == 365 * 7
    prove_sub((2022, 6, 30), 2555, (2015, 7, 2)); // 2555 == 365 * 7
}

#[test]
fn test_add_sub_negative() {
    prove_add((2020, 1, 1), -1, (2019, 12, 31));
    prove_sub((2019, 12, 31), -1, (2020, 1, 1));
    prove_add((2020, 1, 1), -366, (2018, 12, 31));
    prove_sub((2020, 1, 1), 366, (2018, 12, 31));
    prove_add((1970, 1, 1), 0, (1970, 1, 1));
    prove_add((-32768, 1, 1), 23_936_531, (32767, 12, 31));
    prove_sub((32767, 12, 31), 23_936_531, (-32768, 1, 1));
}

#[test]
fn interval_test_sub_dates() {
    assert!(date(2012, 4, 21) - date(2012, 4, 21) == DateInterval::new(0));
    assert!(date(2012, 4, 22) - date(2012, 4, 21) == DateInterval::new(1));
    assert!(date(2012, 4, 24) - date(2012, 4, 21) == DateInterval::new(3));
    assert!(date(2012, 4, 20) - date(2012, 4, 21) == DateInterval::new(-1));
    assert!(date(2012, 4, 14) - date(2012, 4, 21) == DateInterval::new(-7));
    assert!(date(2012, 1, 2) - date(2011, 12, 30) == DateInterval::new(3));
    assert!(date(2011, 12, 30) - date(2012, 1, 2) == DateInterval::new(-3));
    assert!(date(2018, 6, 1) - date(2016, 6, 1) == DateInterval::new(730));

    // Identity
    assert!(date(2012, 4, 18) + (date(2012, 4, 21) - date(2012, 4, 18)) == date(2012, 4, 21));
}

#[test]
fn test_sub_dates_laws() {
    let dates = [
        Date::min_value(),
        date(-1, 12, 31),
        date(0, 1, 1),
        date(1969, 12, 31),
        date(1970, 1, 1),
        date(2012, 4, 21),
        date(2020, 2, 29),
        Date::max_value(),
    ];
    for a in dates {
        for b in dates {
            assert!(a + (b - a) == b);
            assert!(a - b == -(b - a));
            assert!((a - b).days() == a.to_epoch_day() - b.to_epoch_day());
        }
    }
    let a = date(2012, 4, 21);
    for n in [-400, -1, 0, 1, 59, 366, 100_000] {
        assert!(a - DateInterval::new(n) == a + DateInterval::new(-n));
        assert!(a - DateInterval::new(n) == a + -DateInterval::new(n));
        assert!((a + DateInterval::new(n)) - a == DateInterval::new(n));
    }
    assert!(Date::max_value() - Date::min_value() == DateInterval::new(23_936_531));
}

#[test]
fn test_date_interval() {
    assert!(DateInterval::new(5).days() == 5);
    assert!(DateInterval::new(-5).days() == -5);
    assert!(DateInterval::new(-5).abs() == DateInterval::new(5));
    assert!(DateInterval::new(5).abs() == DateInterval::new(5));
    assert!(DateInterval::new(0).abs() == DateInterval::new(0));
    assert!(-DateInterval::new(5) == DateInterval::new(-5));
    assert!(DateInterval::new(i32::MIN + 1).abs() == DateInterval::new(i32::MAX));
    assert!(DateInterval::new(-1) < DateInterval::new(0));
    assert!(DateInterval::new(3) > DateInterval::new(2));
}

fn prove_months(from: (i16, u8, u8), months: u8, to: (i16, u8, u8)) {
    // Check `+`.
    assert!(Date::new(from.0, from.1, from.2) + MonthInterval::new(months) == Date::new(to.0, to.1, to.2));

    // Check `-`.
    assert!(Date::new(to.0, to.1, to.2) - MonthInterval::new(months) == Date::new(from.0, from.1, from.2));
}

#[test]
fn test_add_sub_months() {
    prove_months((2020, 4, 15), 3, (2020, 7, 15));
    prove_months((2019, 11, 30), 5, (2020, 4, 30));
    prove_months((2023, 12, 15), 1, (2024, 1, 15));
    prove_months((2012, 4, 21), 18, (2013, 10, 21));
    prove_months((2023, 11, 28), 18, (2025, 5, 28));

    // Coercsion of days (non-communicative).
    assert!(date(2020, 1, 31) + MonthInterval::new(1) == date(2020, 2, 29));
}

#[test]
fn test_month_saturation() {
    assert!(date(2021, 1, 31) + MonthInterval::new(1) == date(2021, 2, 28));
    assert!(date(2020, 1, 31) + MonthInterval::new(1) == date(2020, 2, 29));
    assert!(date(2021, 12, 31) + MonthInterval::new(2) == date(2022, 2, 28));
    assert!(date(2012, 4, 21) + MonthInterval::new(3) == date(2012, 7, 21));
    assert!(date(2021, 3, 31) - MonthInterval::new(1) == date(2021, 2, 28));
    assert!(date(2020, 3, 31) - MonthInterval::new(1) == date(2020, 2, 29));
    assert!(date(2021, 5, 31) - MonthInterval::new(1) == date(2021, 4, 30));
    // To go on and back again need not lead back where a day was lost on the way.
    assert!(date(2021, 1, 31) + MonthInterval::new(1) - MonthInterval::new(1) == date(2021, 1, 28));
}

#[test]
fn test_months_whole_years_and_none() {
    assert!(date(2012, 4, 21) + MonthInterval::new(0) == date(2012, 4, 21));
    assert!(date(2012, 4, 21) - MonthInterval::new(0) == date(2012, 4, 21));
    assert!(date(2012, 4, 21) + MonthInterval::new(12) == date(2013, 4, 21));
    assert!(date(2012, 4, 21) - MonthInterval::new(12) == date(2011, 4, 21));
    assert!(date(2012, 2, 29) + MonthInterval::new(12) == date(2013, 2, 28));
    assert!(date(2012, 2, 29) - MonthInterval::new(12) == date(2011, 2, 28));
    assert!(date(2012, 2, 29) + MonthInterval::new(48) == date(2016, 2, 29));
    assert!(date(2012, 12, 31) + MonthInterval::new(243) == date(2033, 3, 31));
    assert!(date(2033, 3, 31) - MonthInterval::new(243) == date(2012, 12, 31));
    assert!(date(2012, 1, 31) - MonthInterval::new(243) == date(1991, 10, 31));
    assert!(date(-32768, 12, 15) - MonthInterval::new(1) == date(-32768, 11, 15));
    assert!(date(-32768, 12, 15) - MonthInterval::new(11) == date(-32768, 1, 15));
    assert!(date(32767, 1, 15) + MonthInterval::new(11) == date(32767, 12, 15));
}

#[test]
fn test_month_interval() {
    assert!(MonthInterval::new(0).months() == 0);
    assert!(MonthInterval::new(243).months() == 243);
    assert!(MonthInterval::try_new(243) == Some(MonthInterval::new(243)));
    assert!(MonthInterval::try_new(244).is_none());
    assert!(MonthInterval::try_new(255).is_none());
    assert!(MonthInterval::new(3) < MonthInterval::new(4));
}

#[test]
fn test_saturated_date() {
    assert!(saturated_date(2021, 2, 31) == date(2021, 2, 28));
    assert!(saturated_date(2020, 2, 31) == date(2020, 2, 29));
    assert!(saturated_date(2020, 14, 31) == date(2021, 2, 28));
    assert!(saturated_date(2019, 14, 29) == date(2020, 2, 29));
    assert!(saturated_date(2021, 4, 31) == date(2021, 4, 30));
    assert!(saturated_date(2021, 12, 31) == date(2021, 12, 31));
    assert!(saturated_date(2021, 24, 31) == date(2022, 12, 31));
    assert!(saturated_date(2021, 13, 15) == date(2022, 1, 15));
    assert!(saturated_date(2021, 0, 31) == date(2020, 12, 31));
}

#[test]
fn test_checked_arithmetic() {
    let a = date(2012, 4, 21);
    assert!(a.checked_add(DateInterval::new(1)) == Some(date(2012, 4, 22)));
    assert!(a.checked_sub(DateInterval::new(1)) == Some(date(2012, 4, 20)));
    assert!(a.checked_add(DateInterval::new(-21)) == Some(date(2012, 3, 31)));
    assert!(a.checked_add(DateInterval::new(i32::MAX)).is_none());
    assert!(a.checked_sub(DateInterval::new(i32::MIN)).is_none());
    assert!(a.checked_sub(DateInterval::new(i32::MAX)).is_none());
    assert!(Date::max_value().checked_add(DateInterval::new(1)).is_none());
    assert!(Date::max_value().checked_add(DateInterval::new(0)) == Some(Date::max_value()));
    assert!(Date::min_value().checked_sub(DateInterval::new(1)).is_none());
    assert!(Date::min_value().checked_add(DateInterval::new(-1)).is_none());
    assert!(
        Date::min_value().checked_add(DateInterval::new(23_936_531)) == Some(Date::max_value())
    );

    assert!(a.checked_add_months(MonthInterval::new(10)) == Some(date(2013, 2, 21)));
    assert!(a.checked_sub_months(MonthInterval::new(10)) == Some(date(2011, 6, 21)));
    assert!(date(2012, 1, 31).checked_add_months(MonthInterval::new(1)) == Some(date(2012, 2, 29)));
    assert!(date(32767, 1, 1).checked_add_months(MonthInterval::new(11)) == Some(date(32767, 12, 1)));
    assert!(date(32767, 1, 1).checked_add_months(MonthInterval::new(12)).is_none());
    assert!(date(32767, 12, 1).checked_add_months(MonthInterval::new(1)).is_none());
    assert!(date(32767, 12, 1).checked_add_months(MonthInterval::new(0)) == Some(date(32767, 12, 1)));
    assert!(date(-32768, 12, 1).checked_sub_months(MonthInterval::new(11)) == Some(date(-32768, 1, 1)));
    assert!(date(-32768, 12, 1).checked_sub_months(MonthInterval::new(12)).is_none());
    assert!(date(-32768, 1, 1).checked_sub_months(MonthInterval::new(1)).is_none());
    assert!(date(-32768, 1, 1).checked_sub_months(MonthInterval::new(0)) == Some(date(-32768, 1, 1)));
}
