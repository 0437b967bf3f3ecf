//! The date of Easter in the Gregorian calendar.
use crate::calendar::weekday_number;
use crate::date::Date;
use crate::era::lemma_civil_of_day_number;
use crate::era::lemma_day_number_from_march;
use crate::era::march_first;
use crate::weekday::Weekday;
use vstd::prelude::*;

verus! {

/// The number of days from March 21 of `year` to the full moon of spring, as the Gregorian
/// reckoning of Easter has it: it follows the place of the year in the cycle of 19 years after
/// which the moon's phases return to the same days, with a correction by the century.
pub open spec fn full_moon_offset(year: int) -> int {
    let century = year / 100;
    (19 * (year % 19) + century - century / 4 - (century - (century + 8) / 25 + 1) / 3 + 15) % 30
}

/// The number of days from the day after the full moon of spring to the Sunday that is Easter,
/// where the reckoning takes the full moon as it stands.
pub open spec fn sunday_offset(year: int) -> int {
    let century = year / 100;
    let year_of_century = year % 100;
    (32 + 2 * (century % 4) + 2 * (year_of_century / 4) - full_moon_offset(year) - year_of_century
        % 4) % 7
}

/// The day of Easter of `year`, counted in the days of March: 22 for March 22, 32 for April 1,
/// and 56 for April 25. It is a week before the Sunday that `sunday_offset` leads to where the
/// reckoning takes the full moon a day earlier than its cycle says, so that Easter is never
/// later than April 25.
pub open spec fn easter_march_day(year: int) -> int {
    let h = full_moon_offset(year);
    let k = sunday_offset(year);
    22 + h + k - 7 * ((year % 19 + 11 * h + 22 * k) / 451)
}

/// The day number of Easter of `year`.
pub open spec fn easter_day_number(year: int) -> int {
    march_first(year) + easter_march_day(year) - 1
}

/// Easter lies between March 22 and April 25.
pub proof fn lemma_easter_bounds(year: int)
    ensures
        22 <= easter_march_day(year) <= 56,
{
    let h = full_moon_offset(year);
    let k = sunday_offset(year);
    let a = year % 19;
    assert(0 <= h <= 29 && 0 <= k <= 6 && 0 <= a <= 18);
    let l = (a + 11 * h + 22 * k) / 451;
    assert(0 <= l <= 1);
    if h + k > 34 {
        assert(h == 29 && k == 6);
        assert(l == 1);
    }
}

/// March 1 of a year, from the century of the year and the year of its century.
proof fn lemma_march_first_of_century(century: int, year_of_century: int)
    requires
        0 <= year_of_century < 100,
    ensures
        march_first(100 * century + year_of_century) == 36524 * century + 365 * year_of_century
            + year_of_century / 4 + century / 4 - 719468,
{
    let year = 100 * century + year_of_century;
    assert(year / 100 == century);
    assert(year / 4 == 25 * century + year_of_century / 4);
    assert(year / 400 == century / 4);
}

/// The day that lies `h + k - 7 * l` days after March 22 is a Sunday, where `k` is what is
/// left of `32 + 2 * e + 2 * i - h - j` when the sevens in it are taken away.
proof fn lemma_sunday(d: int, e: int, i: int, j: int, h: int, k: int, l: int, q: int, n: int)
    requires
        k == 32 + 2 * e + 2 * i - h - j - 7 * q,
        n == 36524 * (4 * d + e) + 365 * (4 * i + j) + i + d - 719468 + 21 + h + k - 7 * l,
    ensures
        weekday_number(n) == 0,
{
    let weeks = 20871 * d + 5218 * e + 209 * i + 52 * j - 102773 - q - l;
    assert(n + 4 == 7 * weeks);
    assert((7 * weeks) % 7 == 0);
}

/// Easter is a Sunday.
pub proof fn lemma_easter_is_sunday(year: int)
    ensures
        weekday_number(easter_day_number(year)) == 0,
{
    let b = year / 100;
    let c = year % 100;
    let h = full_moon_offset(year);
    let k = sunday_offset(year);
    let l = (year % 19 + 11 * h + 22 * k) / 451;
    let q = (32 + 2 * (b % 4) + 2 * (c / 4) - h - c % 4) / 7;
    lemma_march_first_of_century(b, c);
    lemma_sunday(b / 4, b % 4, c / 4, c % 4, h, k, l, q, easter_day_number(year));
}

impl Date {
    /// The date of Easter in the Gregorian calendar in `year`.
    pub fn easter(year: i16) -> (r: Date)
        requires
            year >= 0,
        ensures
            r@ == easter_day_number(year as int),
            r.spec_year() == year,
            r.spec_weekday() == Weekday::Sunday,
            (r.spec_month() == 3 && 22 <= r.spec_day() <= 31) || (r.spec_month() == 4 && 1
                <= r.spec_day() <= 25),
    {
        let a = year % 19;
        let b = year / 100;
        let c = year % 100;
        let d = b / 4;
        let e = b % 4;
        let f = (b + 8) / 25;
        let g = (b - f + 1) / 3;
        let h = (19 * a + b - d - g + 15) % 30;
        let i = c / 4;
        let j = c % 4;
        let k = (32 + 2 * e + 2 * i - h - j) % 7;
        let l = (a + 11 * h + 22 * k) / 451;
        let month = (h + k - 7 * l + 114) / 31;
        let day = (h + k - 7 * l + 114) % 31 + 1;
        proof {
            assert(h == full_moon_offset(year as int));
            assert(k == sunday_offset(year as int));
            lemma_easter_bounds(year as int);
            lemma_easter_is_sunday(year as int);
            lemma_day_number_from_march(year as int, month as int, day as int);
            lemma_civil_of_day_number(year as int, month as int, day as int);
        }
        Date::new(year, month as u8, day as u8)
    }
}

} // verus!
