//! The Gregorian calendar as mathematics: the leap-year rule, the lengths of months and years,
//! and the numbering of days relative to 1970-01-01.
//!
//! Everything else in this crate is stated over the functions of this module.
use vstd::prelude::*;

verus! {

/// The lowest year that a date can have.
pub const MIN_YEAR: i16 = -32768;

/// The highest year that a date can have.
pub const MAX_YEAR: i16 = 32767;

/// The day number of January 1 of `MIN_YEAR`.
pub const MIN_DAY: i32 = -12687794;

/// The day number of December 31 of `MAX_YEAR`.
pub const MAX_DAY: i32 = 11248737;

/// The Gregorian leap-year rule: every fourth year, except centuries that 400 does not divide.
pub open spec fn leap_year(year: int) -> bool {
    year % 4 == 0 && (year % 100 != 0 || year % 400 == 0)
}

/// The number of days in `year`.
pub open spec fn year_days(year: int) -> int {
    if leap_year(year) {
        366
    } else {
        365
    }
}

/// The number of days in month `month` (1 to 12) of `year`; 0 for any other month number.
pub open spec fn month_days(year: int, month: int) -> int {
    if month == 2 {
        if leap_year(year) {
            29
        } else {
            28
        }
    } else if month == 4 || month == 6 || month == 9 || month == 11 {
        30
    } else if 1 <= month <= 12 {
        31
    } else {
        0
    }
}

/// The number of days of `year` that lie before the first of month `month`, for months 1 to 13
/// (month 13 stands for the January that follows).
pub open spec fn days_before_month(year: int, month: int) -> int
    decreases month,
{
    if month <= 1 {
        0
    } else {
        days_before_month(year, month - 1) + month_days(year, month - 1)
    }
}

/// The number of leap years among the years that end before `year`, counted from year 1
/// (negative for years before it).
#[verifier::opaque]
pub open spec fn leap_years_before(year: int) -> int {
    (year - 1) / 4 - (year - 1) / 100 + (year - 1) / 400
}

/// The day number of January 1 of `year`: the number of days from 1970-01-01 to it.
pub open spec fn days_before_year(year: int) -> int {
    365 * (year - 1970) + leap_years_before(year) - leap_years_before(1970)
}

/// Whether `(year, month, day)` names a day of the calendar.
pub open spec fn valid_date(year: int, month: int, day: int) -> bool {
    1 <= month <= 12 && 1 <= day <= month_days(year, month)
}

/// The day number of the calendar day `(year, month, day)`: 0 for 1970-01-01, 1 for the day
/// after it, -1 for the day before.
pub open spec fn day_number(year: int, month: int, day: int) -> int {
    days_before_year(year) + days_before_month(year, month) + day - 1
}

/// Whether `year` is one that a date can have.
pub open spec fn year_in_range(year: int) -> bool {
    MIN_YEAR <= year <= MAX_YEAR
}

/// Whether `day` is the day number of a day in a year that a date can have.
pub open spec fn day_in_range(day: int) -> bool {
    MIN_DAY <= day <= MAX_DAY
}

/// The closed form of `days_before_month`.
pub proof fn lemma_days_before_month(year: int, month: int)
    requires
        1 <= month <= 13,
    ensures
        days_before_month(year, month) == if month <= 2 {
            31 * (month - 1)
        } else {
            (153 * (month - 3) + 2) / 5 + 59 + if leap_year(year) {
                1int
            } else {
                0int
            }
        },
        0 <= days_before_month(year, month) <= 366,
        days_before_month(year, 13) == year_days(year),
{
    reveal_with_fuel(days_before_month, 14);
}

/// How the quotients by 4, 100 and 400 grow from `x - 1` to `x`.
pub(crate) proof fn lemma_quotient_steps(x: int)
    ensures
        x / 4 == (x - 1) / 4 + if x % 4 == 0 { 1int } else { 0int },
        x / 100 == (x - 1) / 100 + if x % 100 == 0 { 1int } else { 0int },
        x / 400 == (x - 1) / 400 + if x % 400 == 0 { 1int } else { 0int },
{
}

/// What 400 divides, 100 divides, and what 100 divides, 4 divides.
pub(crate) proof fn lemma_divisors(x: int)
    ensures
        x % 400 == 0 ==> x % 100 == 0,
        x % 100 == 0 ==> x % 4 == 0,
{
}

/// One more leap year lies before the year that follows a leap year, and no more before one
/// that follows another year.
pub proof fn lemma_leap_years_before_step(year: int)
    ensures
        leap_years_before(year + 1) == leap_years_before(year) + if leap_year(year) {
            1int
        } else {
            0int
        },
{
    reveal(leap_years_before);
    lemma_quotient_steps(year);
    lemma_divisors(year);
}

/// The year that follows `year` starts `year_days(year)` days after `year` does, and 1970
/// starts on day 0.
pub proof fn lemma_days_before_year_step(year: int)
    ensures
        days_before_year(year + 1) == days_before_year(year) + year_days(year),
        days_before_year(1970) == 0,
{
    lemma_leap_years_before_step(year);
    assert(leap_years_before(1970) == 477) by {
        reveal(leap_years_before);
    }
}

/// Later years start on later days.
pub proof fn lemma_days_before_year_monotone(a: int, b: int)
    requires
        a <= b,
    ensures
        days_before_year(a) + 365 * (b - a) <= days_before_year(b),
    decreases b - a,
{
    if a < b {
        lemma_days_before_year_monotone(a, b - 1);
        lemma_days_before_year_step(b - 1);
    }
}

/// A day of the calendar lies within its year, and within its month.
pub proof fn lemma_day_number_bounds(year: int, month: int, day: int)
    requires
        valid_date(year, month, day),
    ensures
        days_before_year(year) <= day_number(year, month, day) < days_before_year(year + 1),
        days_before_month(year, month) <= day_number(year, month, day) - days_before_year(year)
            < days_before_month(year, month + 1),
{
    lemma_days_before_month(year, month);
    lemma_days_before_month(year, month + 1);
    lemma_days_before_year_step(year);
}

/// Days later in the calendar have higher day numbers: `day_number` keeps the order of
/// `(year, month, day)`.
pub proof fn lemma_day_number_ordered(y1: int, m1: int, d1: int, y2: int, m2: int, d2: int)
    requires
        valid_date(y1, m1, d1),
        valid_date(y2, m2, d2),
        y1 < y2 || (y1 == y2 && (m1 < m2 || (m1 == m2 && d1 < d2))),
    ensures
        day_number(y1, m1, d1) < day_number(y2, m2, d2),
{
    lemma_day_number_bounds(y1, m1, d1);
    lemma_day_number_bounds(y2, m2, d2);
    if y1 < y2 {
        lemma_days_before_year_monotone(y1 + 1, y2);
    } else if m1 < m2 {
        lemma_days_before_month(y1, m1);
        lemma_days_before_month(y1, m1 + 1);
        lemma_days_before_month(y1, m2);
    }
}

/// No two days of the calendar share a day number.
pub proof fn lemma_day_number_injective(y1: int, m1: int, d1: int, y2: int, m2: int, d2: int)
    requires
        valid_date(y1, m1, d1),
        valid_date(y2, m2, d2),
        day_number(y1, m1, d1) == day_number(y2, m2, d2),
    ensures
        y1 == y2,
        m1 == m2,
        d1 == d2,
{
    if y1 < y2 || (y1 == y2 && (m1 < m2 || (m1 == m2 && d1 < d2))) {
        lemma_day_number_ordered(y1, m1, d1, y2, m2, d2);
    } else if y2 < y1 || (y2 == y1 && (m2 < m1 || (m2 == m1 && d2 < d1))) {
        lemma_day_number_ordered(y2, m2, d2, y1, m1, d1);
    }
}

/// The day of the week on which day number `day` falls, from 0 for Sunday to 6 for Saturday.
/// Day 0, 1970-01-01, was a Thursday.
pub open spec fn weekday_number(day: int) -> int {
    (day + 4) % 7
}

/// The day number of the first Sunday of `year`.
pub open spec fn first_sunday(year: int) -> int {
    let january_first = days_before_year(year);
    january_first + (7 - weekday_number(january_first)) % 7
}

/// The week of its year in which day number `day` falls, where `year` is the year of that day:
/// week 1 begins on the first Sunday of the year, and the days before it are week 0.
pub open spec fn week_number(year: int, day: int) -> int {
    if day < first_sunday(year) {
        0
    } else {
        (day - first_sunday(year)) / 7 + 1
    }
}

/// The day number that `(year, month, day)` stands for when months beyond December count on
/// into the following years, month 0 is the December before, and days count on from the first
/// of the month in either direction, so that day 0 is the last day of the month before.
pub open spec fn rolled_day_number(year: int, month: int, day: int) -> int {
    let months = year * 12 + month - 1;
    day_number(months / 12, months % 12 + 1, day)
}

/// For a day of the calendar, nothing rolls.
pub proof fn lemma_rolled_day_number(year: int, month: int, day: int)
    requires
        1 <= month <= 12,
    ensures
        rolled_day_number(year, month, day) == day_number(year, month, day),
{
}

/// Adding a multiple of 400 to a year does not change what the leap-year rule asks of it.
proof fn lemma_leap_year_shift(year: int)
    ensures
        (year + 40000) % 4 == year % 4,
        (year + 40000) % 100 == year % 100,
        (year + 40000) % 400 == year % 400,
{
}

/// Whether `year` is a leap year, for years somewhat beyond those that a date can have.
pub(crate) fn leap_year_wide(year: i32) -> (r: bool)
    requires
        -40000 <= year <= 40000,
    ensures
        r == leap_year(year as int),
{
    proof {
        lemma_leap_year_shift(year as int);
    }
    // The rule has a period of 400 years, and the remainders of a number that is not negative
    // are never negative.
    let shifted: i32 = year + 40000;
    shifted % 4 == 0 && (shifted % 100 != 0 || shifted % 400 == 0)
}

/// The number of days in month `month` of `year`, for years somewhat beyond those that a date
/// can have.
pub(crate) fn month_days_wide(year: i32, month: i32) -> (r: i32)
    requires
        -40000 <= year <= 40000,
        1 <= month <= 12,
    ensures
        r == month_days(year as int, month as int),
        28 <= r <= 31,
{
    if month == 2 {
        if leap_year_wide(year) {
            29
        } else {
            28
        }
    } else if month == 4 || month == 6 || month == 9 || month == 11 {
        30
    } else {
        31
    }
}

/// The number of days in `year`, for years somewhat beyond those that a date can have.
pub(crate) fn year_days_wide(year: i32) -> (r: i32)
    requires
        -40000 <= year <= 40000,
    ensures
        r == year_days(year as int),
        365 <= r <= 366,
{
    if leap_year_wide(year) {
        366
    } else {
        365
    }
}

/// Whether `year` is a leap year.
pub fn is_leap_year(year: i16) -> (r: bool)
    ensures
        r == leap_year(year as int),
{
    leap_year_wide(year as i32)
}

/// The number of days in month `month` of `year`.
pub fn days_in_month(year: i16, month: u8) -> (r: u8)
    requires
        1 <= month <= 12,
    ensures
        r == month_days(year as int, month as int),
        28 <= r <= 31,
{
    month_days_wide(year as i32, month as i32) as u8
}

} // verus!
