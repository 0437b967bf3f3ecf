//! The date itself: one day of the Gregorian calendar, stored as its day number.
use crate::calendar::day_in_range;
use crate::calendar::day_number;
use crate::calendar::days_before_year;
use crate::calendar::days_in_month;
use crate::calendar::is_leap_year;
use crate::calendar::leap_year;
use crate::calendar::lemma_day_number_bounds;
use crate::calendar::lemma_days_before_month;
use crate::calendar::lemma_days_before_year_monotone;
use crate::calendar::lemma_days_before_year_step;
use crate::calendar::MAX_DAY;
use crate::calendar::MAX_YEAR;
use crate::calendar::MIN_DAY;
use crate::calendar::MIN_YEAR;
use crate::calendar::month_days;
use crate::calendar::month_days_wide;
use crate::calendar::rolled_day_number;
use crate::calendar::valid_date;
use crate::calendar::week_number;
use crate::calendar::weekday_number;
use crate::calendar::year_days;
use crate::era::civil;
use crate::era::days_before_year_of_era;
use crate::era::era_civil;
use crate::era::era_day_number;
use crate::era::lemma_civil;
use crate::era::lemma_civil_of_day_number;
use crate::era::lemma_day_in_range;
use crate::era::lemma_era_day_number;
use crate::era::lemma_range_ends;
use crate::era::lemma_year_of_era;
use crate::era::year_of_era as year_of_era_spec;
use crate::weekday::Weekday;
use vstd::prelude::*;

verus! {

/// One day of the Gregorian calendar, in a year from -32768 to 32767.
///
/// The model of a date is its day number, `self@`: the number of days from 1970-01-01 to it.
#[derive(Copy, Clone, Debug, PartialEq, Eq, Structural, Ord, Hash)]
pub struct Date(i32);

/// Why a year, a month and a day do not name a day of the calendar.
#[derive(Copy, Clone, Debug, PartialEq, Eq, Structural)]
pub enum DateError {
    /// The month is not one of 1 to 12.
    MonthOutOfBounds,
    /// The day is 0, or more than the month has in a leap year.
    DayOutOfBounds,
    /// The day is February 29 and the year is no leap year.
    NotLeapYear,
}

/// Why `(year, month, day)` names no day of the calendar, if it names none.
pub open spec fn date_error(year: int, month: int, day: int) -> Option<DateError> {
    if !(1 <= month <= 12) {
        Some(DateError::MonthOutOfBounds)
    } else if !(1 <= day <= month_days(2000, month)) {
        Some(DateError::DayOutOfBounds)
    } else if month == 2 && day == 29 && !leap_year(year) {
        Some(DateError::NotLeapYear)
    } else {
        None
    }
}

/// There is a reason why `(year, month, day)` names no day of the calendar exactly where it
/// names none.
pub proof fn lemma_date_error(year: int, month: int, day: int)
    ensures
        date_error(year, month, day) is None <==> valid_date(year, month, day),
{
}

impl View for Date {
    type V = int;

    closed spec fn view(&self) -> int {
        self.0 as int
    }
}

impl Date {
    /// What every date satisfies: its day lies in a year from -32768 to 32767.
    #[verifier::type_invariant]
    pub open spec fn wf(self) -> bool {
        day_in_range(self@)
    }

    /// The date with day number `day`.
    pub closed spec fn of_day(day: int) -> Date {
        Date(day as i32)
    }

    /// The year of this date.
    pub open spec fn spec_year(self) -> int {
        civil(self@).0
    }

    /// The month of this date, from 1 to 12.
    pub open spec fn spec_month(self) -> int {
        civil(self@).1
    }

    /// The day of the month of this date, from 1.
    pub open spec fn spec_day(self) -> int {
        civil(self@).2
    }

    /// `of_day` makes the date with a given day number.
    pub broadcast proof fn lemma_of_day(day: int)
        requires
            day_in_range(day),
        ensures
            (#[trigger] Date::of_day(day))@ == day,
    {
    }

    /// Two dates with one day number are one date.
    pub proof fn lemma_view_injective(a: Date, b: Date)
        requires
            a@ == b@,
        ensures
            a == b,
    {
    }

    /// The date of the calendar day `(year, month, day)`.
    pub fn new(year: i16, month: u8, day: u8) -> (r: Date)
        requires
            valid_date(year as int, month as int, day as int),
        ensures
            r@ == day_number(year as int, month as int, day as int),
            civil(r@) == (year as int, month as int, day as int),
    {
        let y: i32 = year as i32 - if month <= 2 { 1i32 } else { 0i32 };
        let m: i32 = month as i32;
        let d: i32 = day as i32;
        let era: i32 = (if y >= 0 { y } else { y - 399 }) / 400;
        assert(era == y as int / 400);
        let year_of_era: i32 = y - era * 400;
        let shifted_month: i32 = if m > 2 { m - 3 } else { m + 9 };
        let day_of_year: i32 = (153 * shifted_month + 2) / 5 + d - 1;
        let day_of_era: i32 = year_of_era * 365 + year_of_era / 4 - year_of_era / 100 + day_of_year;
        assert(day_of_era == days_before_year_of_era(year_of_era as int) + day_of_year);
        assert(era * 146097 + day_of_era - 719468 == era_day_number(
            year as int,
            month as int,
            day as int,
        ));
        proof {
            lemma_era_day_number(year as int, month as int, day as int);
            lemma_civil_of_day_number(year as int, month as int, day as int);
            lemma_day_in_range(day_number(year as int, month as int, day as int));
        }
        Date(era * 146097 + day_of_era - 719468)
    }

    /// The date of the calendar day `(year, month, day)`, or the reason why there is no such
    /// day.
    pub fn try_new(year: i16, month: u8, day: u8) -> (r: Result<Date, DateError>)
        ensures
            match date_error(year as int, month as int, day as int) {
                Some(error) => r == Err::<Date, DateError>(error),
                None => r matches Ok(d) && d@ == day_number(year as int, month as int, day as int)
                    && civil(d@) == (year as int, month as int, day as int),
            },
    {
        if month < 1 || month > 12 {
            return Err(DateError::MonthOutOfBounds);
        }
        if day < 1 || day > days_in_month(2000, month) {
            return Err(DateError::DayOutOfBounds);
        }
        if month == 2 && day == 29 && !is_leap_year(year) {
            return Err(DateError::NotLeapYear);
        }
        Ok(Date::new(year, month, day))
    }

    /// The date with day number `day`, if that day lies in a year that a date can have.
    pub fn from_epoch_day(day: i32) -> (r: Option<Date>)
        ensures
            r is Some <==> day_in_range(day as int),
            r matches Some(d) ==> d@ == day,
    {
        if MIN_DAY <= day && day <= MAX_DAY {
            Some(Date(day))
        } else {
            None
        }
    }

    /// The date with day number `day`.
    pub(crate) fn of_epoch_day(day: i32) -> (r: Date)
        requires
            day_in_range(day as int),
        ensures
            r@ == day,
            r == Date::of_day(day as int),
    {
        Date(day)
    }

    /// The day number of this date: the number of days from 1970-01-01 to it.
    pub fn to_epoch_day(&self) -> (r: i32)
        ensures
            r == self@,
            day_in_range(r as int),
    {
        proof {
            use_type_invariant(self);
        }
        self.0
    }

    /// The year, the month and the day of the month of this date.
    pub fn ymd(&self) -> (r: (i16, u8, u8))
        ensures
            (r.0 as int, r.1 as int, r.2 as int) == civil(self@),
            valid_date(r.0 as int, r.1 as int, r.2 as int),
            day_number(r.0 as int, r.1 as int, r.2 as int) == self@,
    {
        proof {
            use_type_invariant(self);
            lemma_civil(self@);
            lemma_day_in_range(self@);
        }
        let shifted: i32 = self.0 + 719468;
        let era: i32 = (if shifted >= 0 { shifted } else { shifted - 146096 }) / 146097;
        assert(era == shifted as int / 146097);
        let day_of_era: i32 = shifted - era * 146097;
        proof {
            lemma_year_of_era(day_of_era as int);
        }
        let year_of_era: i32 = (day_of_era - day_of_era / 1460 + day_of_era / 36524 - day_of_era
            / 146096) / 365;
        assert(year_of_era == year_of_era_spec(day_of_era as int));
        let day_of_year: i32 = day_of_era - (365 * year_of_era + year_of_era / 4 - year_of_era
            / 100);
        let shifted_month: i32 = (5 * day_of_year + 2) / 153;
        let day: i32 = day_of_year - (153 * shifted_month + 2) / 5 + 1;
        let month: i32 = if shifted_month < 10 { shifted_month + 3 } else { shifted_month - 9 };
        let year: i32 = year_of_era + era * 400 + if month <= 2 { 1i32 } else { 0i32 };
        assert((year as int, month as int, day as int) == era_civil(self@));
        (year as i16, month as u8, day as u8)
    }

    /// The year of this date.
    pub fn year(&self) -> (r: i16)
        ensures
            r == self.spec_year(),
    {
        self.ymd().0
    }

    /// The month of this date, from 1 for January to 12 for December.
    pub fn month(&self) -> (r: u8)
        ensures
            r == self.spec_month(),
            1 <= r <= 12,
    {
        self.ymd().1
    }

    /// The day of the month of this date, from 1.
    pub fn day(&self) -> (r: u8)
        ensures
            r == self.spec_day(),
            1 <= r <= month_days(self.spec_year(), self.spec_month()),
    {
        self.ymd().2
    }

    /// The day of the week on which this date falls.
    pub open spec fn spec_weekday(self) -> Weekday {
        Weekday::of_number(weekday_number(self@))
    }

    /// The number of this date's day in its year, from 1 for January 1.
    pub open spec fn spec_day_of_year(self) -> int {
        self@ - days_before_year(self.spec_year()) + 1
    }

    /// The week of its year in which this date falls: week 1 begins on the first Sunday of the
    /// year, and the days before it are week 0.
    pub open spec fn spec_week(self) -> int {
        week_number(self.spec_year(), self@)
    }

    /// The number of this date's day in its year, from 1 for January 1 to 365, or 366 in a
    /// leap year, for December 31.
    pub fn day_of_year(&self) -> (r: u16)
        ensures
            r == self.spec_day_of_year(),
            1 <= r <= year_days(self.spec_year()),
    {
        let year = self.year();
        proof {
            use_type_invariant(self);
            lemma_civil(self@);
            lemma_day_in_range(self@);
            lemma_day_number_bounds(self.spec_year(), self.spec_month(), self.spec_day());
            lemma_days_before_year_step(self.spec_year());
            lemma_days_before_month(self.spec_year(), 1);
        }
        let january_first = Date::new(year, 1, 1);
        (self.0 - january_first.0 + 1) as u16
    }

    /// The week of its year in which this date falls, from 0 to 53, where a week begins on
    /// Sunday: week 1 begins on the first Sunday of the year, and the days before that Sunday
    /// are week 0.
    pub fn week(&self) -> (r: u16)
        ensures
            r == self.spec_week(),
            r <= 53,
    {
        let year = self.year();
        proof {
            use_type_invariant(self);
            lemma_civil(self@);
            lemma_day_in_range(self@);
            lemma_day_number_bounds(self.spec_year(), self.spec_month(), self.spec_day());
            lemma_days_before_year_step(self.spec_year());
            lemma_days_before_month(self.spec_year(), 1);
        }
        let january_first = Date::new(year, 1, 1);
        let weekday: i32 = january_first.weekday().number() as i32;
        let first_sunday: i32 = january_first.0 + (7 - weekday) % 7;
        if self.0 < first_sunday {
            0
        } else {
            ((self.0 - first_sunday) / 7 + 1) as u16
        }
    }

    /// The day of the week on which this date falls.
    pub fn weekday(&self) -> (r: Weekday)
        ensures
            r == self.spec_weekday(),
            r@ == weekday_number(self@),
    {
        proof {
            use_type_invariant(self);
        }
        let number: i32 = (self.0 + 4) % 7;
        if number == 0 {
            Weekday::Sunday
        } else if number == 1 || number == -6 {
            Weekday::Monday
        } else if number == 2 || number == -5 {
            Weekday::Tuesday
        } else if number == 3 || number == -4 {
            Weekday::Wednesday
        } else if number == 4 || number == -3 {
            Weekday::Thursday
        } else if number == 5 || number == -2 {
            Weekday::Friday
        } else {
            Weekday::Saturday
        }
    }

    /// The number of whole days from 1970-01-01T00:00:00Z to `unix_timestamp`, a number of
    /// seconds, rounded towards the past.
    fn timestamp_day(unix_timestamp: i64) -> (r: i64)
        ensures
            r == unix_timestamp as int / 86_400,
    {
        if unix_timestamp >= 0 {
            unix_timestamp / 86_400
        } else {
            (unix_timestamp + 1) / 86_400 - 1
        }
    }

    /// The date on which the second `unix_timestamp` of Unix time falls, in UTC.
    pub fn from_timestamp(unix_timestamp: i64) -> (r: Date)
        requires
            day_in_range(unix_timestamp as int / 86_400),
        ensures
            r@ == unix_timestamp as int / 86_400,
    {
        Date(Date::timestamp_day(unix_timestamp) as i32)
    }

    /// The date on which the second `unix_timestamp` of Unix time falls, in UTC, if that day
    /// lies in a year that a date can have.
    pub fn try_from_timestamp(unix_timestamp: i64) -> (r: Option<Date>)
        ensures
            r is Some <==> day_in_range(unix_timestamp as int / 86_400),
            r matches Some(d) ==> d@ == unix_timestamp as int / 86_400,
    {
        let day = Date::timestamp_day(unix_timestamp);
        if MIN_DAY as i64 <= day && day <= MAX_DAY as i64 {
            Some(Date(day as i32))
        } else {
            None
        }
    }

    /// The Unix time, in seconds, at which this date begins in UTC.
    pub fn timestamp(&self) -> (r: i64)
        ensures
            r == self@ * 86_400,
    {
        proof {
            use_type_invariant(self);
        }
        self.0 as i64 * 86_400
    }

    /// The date that `(year, month, day)` stands for when values out of range roll over into
    /// the neighbouring months and years: month 13 is the January that follows, month 0 the
    /// December before, day 0 the last day of the month before, and a day beyond the end of
    /// its month counts on into the months that follow.
    pub fn overflowing_new(year: i16, month: u8, day: u8) -> (r: Date)
        requires
            day_in_range(rolled_day_number(year as int, month as int, day as int)),
        ensures
            r@ == rolled_day_number(year as int, month as int, day as int),
            valid_date(year as int, month as int, day as int) ==> r@ == day_number(
                year as int,
                month as int,
                day as int,
            ),
    {
        let ghost target = rolled_day_number(year as int, month as int, day as int);
        let mut year: i32 = year as i32;
        let mut month: i32 = month as i32;
        let mut day: i32 = day as i32;

        // Months beyond December belong to the years that follow.
        while month > 12
            invariant
                rolled_day_number(year as int, month as int, day as int) == target,
                0 <= month <= 255,
                -32768 <= year <= 32767 + (255 - month) / 12,
            decreases month,
        {
            year += 1;
            month -= 12;
        }

        // Day 0 is the last day of the month before.
        if day == 0 {
            if month <= 1 {
                year -= 1;
                month += 11;
            } else {
                month -= 1;
            }
            day = month_days_wide(year, month);
            proof {
                lemma_days_before_month(year as int, month as int);
                lemma_days_before_month(year as int, month + 1);
                if month == 12 {
                    lemma_days_before_year_step(year as int);
                }
            }
        }
        // Month 0 is the December before.
        if month == 0 {
            year -= 1;
            month = 12;
        }
        assert(day_number(year as int, month as int, day as int) == target);

        // Days beyond the end of the month belong to the months that follow.
        while day > month_days_wide(year, month)
            invariant
                day_number(year as int, month as int, day as int) == target,
                1 <= month <= 12,
                1 <= day <= 255,
                -32770 <= year,
                12 * year + month + day <= 12 * 32790 + 267,
            decreases day,
        {
            proof {
                lemma_days_before_month(year as int, month as int);
                lemma_days_before_month(year as int, month + 1);
            }
            day -= month_days_wide(year, month);
            month += 1;
            if month == 13 {
                proof {
                    lemma_days_before_year_step(year as int);
                }
                year += 1;
                month = 1;
            }
        }
        proof {
            lemma_civil_of_day_number(year as int, month as int, day as int);
            lemma_day_in_range(target);
        }
        Date::new(year as i16, month as u8, day as u8)
    }

    /// The date that `(year, month, day)` stands for when values out of range roll over into
    /// the neighbouring months and years, if it lies in a year that a date can have.
    pub fn try_overflowing_new(year: i16, month: u8, day: u8) -> (r: Option<Date>)
        ensures
            r is Some <==> day_in_range(rolled_day_number(year as int, month as int, day as int)),
            r matches Some(date) ==> date@ == rolled_day_number(
                year as int,
                month as int,
                day as int,
            ),
    {
        // The month that the month rolls to, and the days from its first day.
        let months: i32 = year as i32 * 12 + month as i32 - 1;
        let rolled_year: i32 = (if months >= 0 { months } else { months - 11 }) / 12;
        let rolled_month: i32 = months - rolled_year * 12 + 1;
        assert(rolled_year == months as int / 12 && rolled_month == months as int % 12 + 1);
        proof {
            lemma_range_ends();
            lemma_days_before_month(rolled_year as int, rolled_month as int);
        }
        if rolled_year < MIN_YEAR as i32 {
            // The December before the first year, of which no day is in range: the days in
            // range begin 31 days after its first.
            proof {
                lemma_days_before_year_step(rolled_year as int);
                lemma_days_before_month(rolled_year as int, 13);
            }
            if day >= 32 {
                Some(Date(MIN_DAY + (day as i32 - 32)))
            } else {
                None
            }
        } else if rolled_year > MAX_YEAR as i32 {
            // A month after the last year, of which only the day before the first January
            // is in range.
            proof {
                lemma_days_before_year_monotone(MAX_YEAR + 1, rolled_year as int);
            }
            if rolled_year == MAX_YEAR as i32 + 1 && rolled_month == 1 && day == 0 {
                Some(Date(MAX_DAY))
            } else {
                None
            }
        } else {
            let first = Date::new(rolled_year as i16, rolled_month as u8, 1);
            proof {
                use_type_invariant(&first);
            }
            Date::from_epoch_day(first.0 + (day as i32 - 1))
        }
    }

    /// The last date that there is: December 31 of the year 32767.
    pub fn max_value() -> (r: Date)
        ensures
            r@ == MAX_DAY,
            civil(r@) == (MAX_YEAR as int, 12int, 31int),
    {
        proof {
            lemma_range_ends();
            lemma_civil_of_day_number(MAX_YEAR as int, 12, 31);
        }
        Date(MAX_DAY)
    }

    /// The first date that there is: January 1 of the year -32768.
    pub fn min_value() -> (r: Date)
        ensures
            r@ == MIN_DAY,
            civil(r@) == (MIN_YEAR as int, 1int, 1int),
    {
        proof {
            lemma_range_ends();
            lemma_civil_of_day_number(MIN_YEAR as int, 1, 1);
        }
        Date(MIN_DAY)
    }
}

} // verus!
