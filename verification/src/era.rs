//! The arithmetic that turns a day number into a calendar day and back in constant time.
//!
//! It counts in eras of 400 years, which all have 146097 days, and in years that begin on
//! March 1, so that the day a leap year adds is the last of its year.
use crate::calendar::day_in_range;
use crate::calendar::day_number;
use crate::calendar::days_before_year;
use crate::calendar::leap_year;
use crate::calendar::leap_years_before;
use crate::calendar::lemma_day_number_bounds;
use crate::calendar::lemma_day_number_injective;
use crate::calendar::lemma_days_before_month;
use crate::calendar::lemma_days_before_year_monotone;
use crate::calendar::lemma_days_before_year_step;
use crate::calendar::lemma_divisors;
use crate::calendar::lemma_leap_years_before_step;
use crate::calendar::lemma_quotient_steps;
use crate::calendar::MAX_DAY;
use crate::calendar::MAX_YEAR;
use crate::calendar::MIN_DAY;
use crate::calendar::MIN_YEAR;
use crate::calendar::month_days;
use crate::calendar::valid_date;
use crate::calendar::year_days;
use crate::calendar::year_in_range;
use vstd::prelude::*;

verus! {

/// The day number of March 1 of `year`, from which the era arithmetic counts.
pub open spec fn march_first(year: int) -> int {
    365 * year + year / 4 - year / 100 + year / 400 - 719468
}

/// `march_first` is the day number of March 1.
pub proof fn lemma_march_first(year: int)
    ensures
        march_first(year) == day_number(year, 3, 1),
{
    lemma_days_before_month(year, 3);
    lemma_leap_years_before_step(year);
    assert(leap_years_before(year + 1) == year / 4 - year / 100 + year / 400) by {
        reveal(leap_years_before);
    }
    assert(leap_years_before(1970) == 477) by {
        reveal(leap_years_before);
    }
}

/// The number of days of an era that lie before March 1 of its year `year_of_era`.
pub open spec fn days_before_year_of_era(year_of_era: int) -> int {
    365 * year_of_era + year_of_era / 4 - year_of_era / 100
}

/// An era has 146097 days, and March 1 of its year `year_of_era` comes
/// `days_before_year_of_era(year_of_era)` days after it begins.
proof fn lemma_march_first_of_era(era: int, year_of_era: int)
    requires
        0 <= year_of_era < 400,
    ensures
        march_first(era * 400 + year_of_era) == era * 146097 + days_before_year_of_era(
            year_of_era,
        ) - 719468,
        (era * 400 + year_of_era) / 400 == era,
{
    let y = era * 400 + year_of_era;
    assert(y / 400 == era);
    assert(y / 4 == era * 100 + year_of_era / 4);
    assert(y / 100 == era * 4 + year_of_era / 100);
}

/// The number of days from March 1 to the first of the month that comes `shifted_month`
/// months after March, for 0 to 12 months.
pub open spec fn days_before_shifted_month(shifted_month: int) -> int {
    (153 * shifted_month + 2) / 5
}

/// The values of `days_before_shifted_month`.
proof fn lemma_days_before_shifted_month()
    ensures
        days_before_shifted_month(0) == 0,
        days_before_shifted_month(1) == 31,
        days_before_shifted_month(2) == 61,
        days_before_shifted_month(3) == 92,
        days_before_shifted_month(4) == 122,
        days_before_shifted_month(5) == 153,
        days_before_shifted_month(6) == 184,
        days_before_shifted_month(7) == 214,
        days_before_shifted_month(8) == 245,
        days_before_shifted_month(9) == 275,
        days_before_shifted_month(10) == 306,
        days_before_shifted_month(11) == 337,
        days_before_shifted_month(12) == 367,
{
}

/// The day number of a calendar day, counted in 400-year eras of years that begin in March.
pub open spec fn era_day_number(year: int, month: int, day: int) -> int {
    let y = if month <= 2 {
        year - 1
    } else {
        year
    };
    let era = y / 400;
    let year_of_era = y - era * 400;
    let shifted_month = if month > 2 {
        month - 3
    } else {
        month + 9
    };
    let day_of_year = days_before_shifted_month(shifted_month) + day - 1;
    let day_of_era = days_before_year_of_era(year_of_era) + day_of_year;
    era * 146097 + day_of_era - 719468
}

/// The day number of a day, counted from March 1 of the year that begins in March and holds
/// the day.
pub proof fn lemma_day_number_from_march(year: int, month: int, day: int)
    requires
        1 <= month <= 12,
    ensures
        day_number(year, month, day) == if month <= 2 {
            march_first(year - 1) + days_before_shifted_month(month + 9) + day - 1
        } else {
            march_first(year) + days_before_shifted_month(month - 3) + day - 1
        },
{
    lemma_days_before_shifted_month();
    lemma_days_before_month(year, month);
    if month <= 2 {
        lemma_march_first(year - 1);
        lemma_days_before_month(year - 1, 3);
        lemma_days_before_year_step(year - 1);
    } else {
        lemma_march_first(year);
        lemma_days_before_month(year, 3);
    }
}

/// The era arithmetic computes the day number.
pub proof fn lemma_era_day_number(year: int, month: int, day: int)
    requires
        1 <= month <= 12,
    ensures
        era_day_number(year, month, day) == day_number(year, month, day),
{
    let y = if month <= 2 {
        year - 1
    } else {
        year
    };
    let era = y / 400;
    let year_of_era = y - era * 400;
    assert(0 <= year_of_era < 400);
    lemma_march_first_of_era(era, year_of_era);
    lemma_day_number_from_march(year, month, day);
}

/// The year of its era (0 to 399) in which day `day_of_era` (0 to 146096) falls.
pub open spec fn year_of_era(day_of_era: int) -> int {
    (day_of_era - day_of_era / 1460 + day_of_era / 36524 - day_of_era / 146096) / 365
}

/// `year_of_era` finds the year in which a day of the era falls.
#[verifier::rlimit(50)]
pub proof fn lemma_year_of_era(day_of_era: int)
    requires
        0 <= day_of_era < 146097,
    ensures
        0 <= year_of_era(day_of_era) < 400,
        days_before_year_of_era(year_of_era(day_of_era)) <= day_of_era,
        day_of_era < days_before_year_of_era(year_of_era(day_of_era) + 1) || day_of_era == 146096,
        day_of_era == 146096 ==> year_of_era(day_of_era) == 399,
{
}

/// Whether a year is a leap year depends on its place in its era alone.
proof fn lemma_leap_year_of_era(era: int, year_of_era: int)
    requires
        0 < year_of_era <= 400,
    ensures
        leap_year(era * 400 + year_of_era) <==> (year_of_era % 4 == 0 && (year_of_era % 100 != 0
            || year_of_era == 400)),
{
    let y = era * 400 + year_of_era;
    assert(y % 4 == year_of_era % 4);
    assert(y % 100 == year_of_era % 100);
    assert(y % 400 == year_of_era % 400);
}

/// The years of an era that begin in March have 365 days, or 366 where the year that follows
/// in the calendar is a leap year.
proof fn lemma_year_of_era_days(era: int, year_of_era: int)
    requires
        0 <= year_of_era < 400,
    ensures
        year_of_era < 399 ==> days_before_year_of_era(year_of_era + 1) == days_before_year_of_era(
            year_of_era,
        ) + year_days(era * 400 + year_of_era + 1),
        days_before_year_of_era(399) == 146096 - 365,
        leap_year(era * 400 + 400),
{
    lemma_quotient_steps(year_of_era + 1);
    lemma_divisors(year_of_era + 1);
    lemma_leap_year_of_era(era, year_of_era + 1);
    lemma_leap_year_of_era(era, 400);
}

/// The month, counted from March, in which day `day_of_year` of a year that begins in March
/// falls.
pub open spec fn shifted_month_of(day_of_year: int) -> int {
    (5 * day_of_year + 2) / 153
}

/// `shifted_month_of` finds the month in which a day of the year falls.
proof fn lemma_shifted_month_of(day_of_year: int)
    requires
        0 <= day_of_year <= 365,
    ensures
        0 <= shifted_month_of(day_of_year) <= 11,
        days_before_shifted_month(shifted_month_of(day_of_year)) <= day_of_year
            < days_before_shifted_month(shifted_month_of(day_of_year) + 1),
{
    lemma_days_before_shifted_month();
}

/// The calendar day with day number `day`, found by the era arithmetic: the year, the month
/// and the day of the month.
pub open spec fn era_civil(day: int) -> (int, int, int) {
    let shifted = day + 719468;
    let era = shifted / 146097;
    let day_of_era = shifted - era * 146097;
    let year_of_era = year_of_era(day_of_era);
    let day_of_year = day_of_era - days_before_year_of_era(year_of_era);
    let shifted_month = shifted_month_of(day_of_year);
    let day_of_month = day_of_year - days_before_shifted_month(shifted_month) + 1;
    let month = if shifted_month < 10 {
        shifted_month + 3
    } else {
        shifted_month - 9
    };
    let year = year_of_era + era * 400 + if month <= 2 {
        1int
    } else {
        0int
    };
    (year, month, day_of_month)
}

/// The era arithmetic finds a day of the calendar, and that day has the day number asked for.
pub proof fn lemma_era_civil(day: int)
    ensures
        valid_date(era_civil(day).0, era_civil(day).1, era_civil(day).2),
        day_number(era_civil(day).0, era_civil(day).1, era_civil(day).2) == day,
{
    let shifted = day + 719468;
    let era = shifted / 146097;
    let day_of_era = shifted - era * 146097;
    assert(0 <= day_of_era < 146097);
    let yoe = year_of_era(day_of_era);
    lemma_year_of_era(day_of_era);
    lemma_year_of_era_days(era, yoe);
    let day_of_year = day_of_era - days_before_year_of_era(yoe);
    let y = yoe + era * 400;
    assert(0 <= day_of_year <= 365);
    assert(day_of_year == 365 ==> leap_year(y + 1));
    lemma_march_first_of_era(era, yoe);
    assert(day == march_first(y) + day_of_year);
    lemma_shifted_month_of(day_of_year);
    let shifted_month = shifted_month_of(day_of_year);
    let day_of_month = day_of_year - days_before_shifted_month(shifted_month) + 1;
    let month = if shifted_month < 10 {
        shifted_month + 3
    } else {
        shifted_month - 9
    };
    let year = if month <= 2 {
        y + 1
    } else {
        y
    };
    assert(era_civil(day) == (year, month, day_of_month));
    lemma_day_number_from_march(year, month, day_of_month);
    assert(day_number(year, month, day_of_month) == day);
    lemma_days_before_shifted_month();
    assert(1 <= day_of_month <= month_days(year, month));
}

/// The calendar day with day number `day`: its year, its month and its day of the month.
pub open spec fn civil(day: int) -> (int, int, int) {
    choose|c: (int, int, int)| valid_date(c.0, c.1, c.2) && day_number(c.0, c.1, c.2) == day
}

/// Every day number is the number of a day of the calendar, which `civil` finds.
pub proof fn lemma_civil(day: int)
    ensures
        valid_date(civil(day).0, civil(day).1, civil(day).2),
        day_number(civil(day).0, civil(day).1, civil(day).2) == day,
        civil(day) == era_civil(day),
{
    lemma_era_civil(day);
    let w = era_civil(day);
    assert(valid_date(w.0, w.1, w.2) && day_number(w.0, w.1, w.2) == day);
    let c = civil(day);
    lemma_day_number_injective(c.0, c.1, c.2, w.0, w.1, w.2);
}

/// To number a day of the calendar and to look the number up again gives the day back.
pub proof fn lemma_civil_of_day_number(year: int, month: int, day: int)
    requires
        valid_date(year, month, day),
    ensures
        civil(day_number(year, month, day)) == (year, month, day),
{
    let c = civil(day_number(year, month, day));
    lemma_civil(day_number(year, month, day));
    lemma_day_number_injective(c.0, c.1, c.2, year, month, day);
}

/// The first and the last day in range are the first day of `MIN_YEAR` and the last day of
/// `MAX_YEAR`.
pub proof fn lemma_range_ends()
    ensures
        days_before_year(MIN_YEAR as int) == MIN_DAY,
        days_before_year(MAX_YEAR + 1) == MAX_DAY + 1,
        MIN_DAY == day_number(MIN_YEAR as int, 1, 1),
        MAX_DAY == day_number(MAX_YEAR as int, 12, 31),
{
    reveal(leap_years_before);
    lemma_days_before_month(MAX_YEAR as int, 12);
    lemma_days_before_month(MIN_YEAR as int, 1);
    assert(year_days(MAX_YEAR as int) == 365);
    lemma_days_before_year_step(MAX_YEAR as int);
}

/// The days in range are the days of the years in range.
pub proof fn lemma_day_in_range(day: int)
    ensures
        day_in_range(day) <==> year_in_range(civil(day).0),
{
    lemma_civil(day);
    lemma_range_ends();
    let c = civil(day);
    lemma_day_number_bounds(c.0, c.1, c.2);
    if c.0 < MIN_YEAR {
        lemma_days_before_year_monotone(c.0 + 1, MIN_YEAR as int);
    }
    if c.0 > MAX_YEAR {
        lemma_days_before_year_monotone(MAX_YEAR + 1, c.0);
    }
    if MIN_YEAR <= c.0 {
        lemma_days_before_year_monotone(MIN_YEAR as int, c.0);
    }
    if c.0 <= MAX_YEAR {
        lemma_days_before_year_monotone(c.0 + 1, MAX_YEAR + 1);
    }
}

} // verus!
