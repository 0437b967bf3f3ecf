//! Intervals of days and of months, and the arithmetic of dates with them.
//!
//! An interval of days can be added to a date and subtracted from it, and it is what the
//! difference of two dates is. An interval of months moves a date by whole months and keeps
//! its day of the month where the month it arrives in is long enough; where it is not, the
//! date is the last day of that month.
use crate::calendar::day_in_range;
use crate::calendar::day_number;
use crate::calendar::leap_year_wide;
use crate::calendar::lemma_rolled_day_number;
use crate::calendar::month_days;
use crate::calendar::rolled_day_number;
use crate::calendar::valid_date;
use crate::calendar::year_in_range;
use crate::date::Date;
use crate::era::civil;
use crate::era::lemma_civil;
use crate::era::lemma_civil_of_day_number;
use crate::era::lemma_day_in_range;
use std::ops::Add;
use std::ops::AddAssign;
use std::ops::Neg;
use std::ops::Sub;
use std::ops::SubAssign;
use vstd::prelude::*;
use vstd::std_specs::ops::AddSpecImpl;
use vstd::std_specs::ops::NegSpecImpl;
use vstd::std_specs::ops::SubSpecImpl;

verus! {

/// A number of days, which may be negative: the difference of two dates is one.
///
/// The model of an interval is its number of days, `self@`.
#[derive(Copy, Clone, Debug, PartialEq, Eq, Structural, Ord, Hash)]
pub struct DateInterval {
    days: i32,
}

impl View for DateInterval {
    type V = int;

    closed spec fn view(&self) -> int {
        self.days as int
    }
}

impl DateInterval {
    /// The interval of `days` days.
    pub closed spec fn of_days(days: int) -> DateInterval {
        DateInterval { days: days as i32 }
    }

    /// An interval is its number of days.
    pub broadcast proof fn lemma_of_days(days: int)
        requires
            i32::MIN <= days <= i32::MAX,
        ensures
            (#[trigger] DateInterval::of_days(days))@ == days,
    {
    }

    /// The number of days of an interval fits in 32 bits.
    pub proof fn lemma_days_fit(self)
        ensures
            i32::MIN <= self@ <= i32::MAX,
    {
    }

    /// Two intervals of as many days are one interval.
    pub proof fn lemma_view_injective(a: DateInterval, b: DateInterval)
        requires
            a@ == b@,
        ensures
            a == b,
    {
    }

    /// An interval of `days` days.
    pub fn new(days: i32) -> (r: DateInterval)
        ensures
            r@ == days,
            r == DateInterval::of_days(days as int),
    {
        DateInterval { days }
    }

    /// The number of days in this interval.
    pub fn days(&self) -> (r: i32)
        ensures
            r == self@,
    {
        self.days
    }

    /// The interval of as many days that is not negative.
    pub fn abs(self) -> (r: DateInterval)
        requires
            self@ != i32::MIN,
        ensures
            r@ == if self@ < 0 {
                -self@
            } else {
                self@
            },
    {
        if self.days < 0 {
            DateInterval { days: -self.days }
        } else {
            self
        }
    }
}

impl NegSpecImpl for DateInterval {
    open spec fn obeys_neg_spec() -> bool {
        true
    }

    open spec fn neg_req(self) -> bool {
        self@ != i32::MIN
    }

    open spec fn neg_spec(self) -> DateInterval {
        DateInterval::of_days(-self@)
    }
}

impl Neg for DateInterval {
    type Output = DateInterval;

    /// The interval of as many days in the other direction.
    fn neg(self) -> (r: DateInterval)
        ensures
            r@ == -self@,
    {
        DateInterval { days: -self.days }
    }
}

impl AddSpecImpl<DateInterval> for Date {
    open spec fn obeys_add_spec() -> bool {
        true
    }

    open spec fn add_req(self, interval: DateInterval) -> bool {
        day_in_range(self@ + interval@)
    }

    open spec fn add_spec(self, interval: DateInterval) -> Date {
        Date::of_day(self@ + interval@)
    }
}

impl Add<DateInterval> for Date {
    type Output = Date;

    /// The date `interval` days after this one.
    fn add(self, interval: DateInterval) -> (r: Date)
        ensures
            r@ == self@ + interval@,
    {
        Date::of_epoch_day(self.to_epoch_day() + interval.days())
    }
}

impl AddAssign<DateInterval> for Date {
    /// Moves this date `interval` days on.
    fn add_assign(&mut self, interval: DateInterval)
        requires
            day_in_range(old(self)@ + interval@),
        ensures
            final(self)@ == old(self)@ + interval@,
    {
        *self = Date::of_epoch_day(self.to_epoch_day() + interval.days());
    }
}

impl SubSpecImpl<DateInterval> for Date {
    open spec fn obeys_sub_spec() -> bool {
        true
    }

    open spec fn sub_req(self, interval: DateInterval) -> bool {
        day_in_range(self@ - interval@)
    }

    open spec fn sub_spec(self, interval: DateInterval) -> Date {
        Date::of_day(self@ - interval@)
    }
}

impl Sub<DateInterval> for Date {
    type Output = Date;

    /// The date `interval` days before this one.
    fn sub(self, interval: DateInterval) -> (r: Date)
        ensures
            r@ == self@ - interval@,
    {
        Date::of_epoch_day(self.to_epoch_day() - interval.days())
    }
}

impl SubAssign<DateInterval> for Date {
    /// Moves this date `interval` days back.
    fn sub_assign(&mut self, interval: DateInterval)
        requires
            day_in_range(old(self)@ - interval@),
        ensures
            final(self)@ == old(self)@ - interval@,
    {
        *self = Date::of_epoch_day(self.to_epoch_day() - interval.days());
    }
}

impl SubSpecImpl<Date> for Date {
    open spec fn obeys_sub_spec() -> bool {
        true
    }

    open spec fn sub_req(self, earlier: Date) -> bool {
        true
    }

    open spec fn sub_spec(self, earlier: Date) -> DateInterval {
        DateInterval::of_days(self@ - earlier@)
    }
}

impl Sub<Date> for Date {
    type Output = DateInterval;

    /// The number of days from `earlier` to this date, which is negative where `earlier` is
    /// the later of the two.
    fn sub(self, earlier: Date) -> (r: DateInterval)
        ensures
            r@ == self@ - earlier@,
    {
        DateInterval::new(self.to_epoch_day() - earlier.to_epoch_day())
    }
}

/// The most months that an interval of months can have.
pub const MAX_MONTHS: u8 = 243;

/// A number of months, from 0 to 243.
///
/// The model of an interval is its number of months, `self@`.
#[derive(Copy, Clone, Debug, PartialEq, Eq, Structural, Ord, Hash)]
pub struct MonthInterval {
    months: u8,
}

impl View for MonthInterval {
    type V = int;

    closed spec fn view(&self) -> int {
        self.months as int
    }
}

/// The calendar day that lies `months` months from `(year, month, day)`, back in time where
/// `months` is negative: the day of the month stays where the month arrived in has such a day,
/// and is the last day of that month where it has not.
pub open spec fn shift_months(year: int, month: int, day: int, months: int) -> (int, int, int) {
    let index = year * 12 + month - 1 + months;
    let y = index / 12;
    let m = index % 12 + 1;
    (
        y,
        m,
        if day <= month_days(y, m) {
            day
        } else {
            month_days(y, m)
        },
    )
}

/// To move a day of the calendar by months gives a day of the calendar.
pub proof fn lemma_shift_months_valid(year: int, month: int, day: int, months: int)
    requires
        valid_date(year, month, day),
    ensures
        valid_date(
            shift_months(year, month, day, months).0,
            shift_months(year, month, day, months).1,
            shift_months(year, month, day, months).2,
        ),
{
}

impl MonthInterval {
    /// What every interval of months satisfies: it has 243 months at most.
    #[verifier::type_invariant]
    pub open spec fn wf(self) -> bool {
        0 <= self@ <= MAX_MONTHS
    }

    /// An interval of `months` months.
    pub fn new(months: u8) -> (r: MonthInterval)
        requires
            months <= MAX_MONTHS,
        ensures
            r@ == months,
    {
        MonthInterval { months }
    }

    /// An interval of `months` months, if there is one of that length.
    pub fn try_new(months: u8) -> (r: Option<MonthInterval>)
        ensures
            r is Some <==> months <= MAX_MONTHS,
            r matches Some(interval) ==> interval@ == months,
    {
        if months <= MAX_MONTHS {
            Some(MonthInterval { months })
        } else {
            None
        }
    }

    /// The number of months in this interval.
    pub fn months(&self) -> (r: u8)
        ensures
            r == self@,
            r <= MAX_MONTHS,
    {
        proof {
            use_type_invariant(self);
        }
        self.months
    }
}

/// The month of its year, from 1 to 12, that month `month` of `year` is when months beyond
/// December count on into the following years and month 0 is the December before, and the
/// year that it lies in.
pub open spec fn rolled_month(year: int, month: int) -> (int, int) {
    let index = year * 12 + month - 1;
    (index / 12, index % 12 + 1)
}

/// The day number that `saturated_date` gives: `day` of the month if the month has such a day
/// and the last day of the month if it has not, in the month that `month` of `year` rolls to.
pub open spec fn saturated_day_number(year: int, month: int, day: int) -> int {
    let (y, m) = rolled_month(year, month);
    rolled_day_number(
        year,
        month,
        if day <= month_days(y, m) {
            day
        } else {
            month_days(y, m)
        },
    )
}

/// The date of day `day` of month `month` of `year`, or of the last day of that month where
/// the month has no such day. Months beyond December count on into the following years, and
/// month 0 is the December before.
pub fn saturated_date(year: i16, month: u8, day: u8) -> (r: Date)
    requires
        day_in_range(saturated_day_number(year as int, month as int, day as int)),
    ensures
        r@ == saturated_day_number(year as int, month as int, day as int),
{
    let month_of_year: u8 = month % 12;
    let ghost (y, m) = rolled_month(year as int, month as int);
    assert(m == if month_of_year == 0 { 12int } else { month_of_year as int });
    let longest: u8 = if month_of_year == 4 || month_of_year == 6 || month_of_year == 9
        || month_of_year == 11 {
        30
    } else if month_of_year == 2 {
        if leap_year_wide(year as i32 + (month / 12) as i32) {
            29
        } else {
            28
        }
    } else {
        31
    };
    Date::overflowing_new(year, month, if day <= longest { day } else { longest })
}

impl AddSpecImpl<MonthInterval> for Date {
    open spec fn obeys_add_spec() -> bool {
        true
    }

    open spec fn add_req(self, interval: MonthInterval) -> bool {
        year_in_range(shift_months(self.spec_year(), self.spec_month(), self.spec_day(), interval@).0)
    }

    open spec fn add_spec(self, interval: MonthInterval) -> Date {
        let (y, m, d) = shift_months(
            self.spec_year(),
            self.spec_month(),
            self.spec_day(),
            interval@,
        );
        Date::of_day(day_number(y, m, d))
    }
}

impl Add<MonthInterval> for Date {
    type Output = Date;

    /// The date `interval` months after this one: the same day of the month, or the last day
    /// of the month where the month has no such day.
    fn add(self, interval: MonthInterval) -> (r: Date)
        ensures
            civil(r@) == shift_months(
                self.spec_year(),
                self.spec_month(),
                self.spec_day(),
                interval@,
            ),
    {
        let (year, month, day) = self.ymd();
        let ghost (y, m, d) = shift_months(year as int, month as int, day as int, interval@);
        proof {
            lemma_shift_months_valid(year as int, month as int, day as int, interval@);
            lemma_civil_of_day_number(y, m, d);
            lemma_day_in_range(day_number(y, m, d));
            lemma_rolled_day_number(y, m, d);
            assert(rolled_month(year as int, month + interval@) == (y, m));
            assert(saturated_day_number(year as int, month + interval@, day as int) == day_number(
                y,
                m,
                d,
            ));
        }
        let r = saturated_date(year, month + interval.months(), day);
        proof {
            Date::lemma_of_day(day_number(y, m, d));
            Date::lemma_view_injective(r, Date::of_day(day_number(y, m, d)));
        }
        r
    }
}

impl SubSpecImpl<MonthInterval> for Date {
    open spec fn obeys_sub_spec() -> bool {
        true
    }

    open spec fn sub_req(self, interval: MonthInterval) -> bool {
        year_in_range(
            shift_months(self.spec_year(), self.spec_month(), self.spec_day(), -interval@).0,
        )
    }

    open spec fn sub_spec(self, interval: MonthInterval) -> Date {
        let (y, m, d) = shift_months(
            self.spec_year(),
            self.spec_month(),
            self.spec_day(),
            -interval@,
        );
        Date::of_day(day_number(y, m, d))
    }
}

impl Sub<MonthInterval> for Date {
    type Output = Date;

    /// The date `interval` months before this one: the same day of the month, or the last day
    /// of the month where the month has no such day.
    fn sub(self, interval: MonthInterval) -> (r: Date)
        ensures
            civil(r@) == shift_months(
                self.spec_year(),
                self.spec_month(),
                self.spec_day(),
                -interval@,
            ),
    {
        let (year, month, day) = self.ymd();
        let months = interval.months();
        let ghost (y, m, d) = shift_months(year as int, month as int, day as int, -interval@);
        // Go back whole years, as many as hold the interval, and forward again what that was
        // too much.
        let years: u8 = (months + 11) / 12;
        let mut from_year: i32 = year as i32 - years as i32;
        let mut from_month: u8 = month + (12 * years - months);
        if from_year < -32768 {
            from_year = from_year + 1;
            from_month = from_month - 12;
        }
        proof {
            lemma_shift_months_valid(year as int, month as int, day as int, -interval@);
            lemma_civil_of_day_number(y, m, d);
            lemma_day_in_range(day_number(y, m, d));
            lemma_rolled_day_number(y, m, d);
            assert(rolled_month(from_year as int, from_month as int) == (y, m));
            assert(saturated_day_number(from_year as int, from_month as int, day as int)
                == day_number(y, m, d));
        }
        let r = saturated_date(from_year as i16, from_month, day);
        proof {
            Date::lemma_of_day(day_number(y, m, d));
            Date::lemma_view_injective(r, Date::of_day(day_number(y, m, d)));
        }
        r
    }
}

impl Date {
    /// The date `interval` days after this one, if there is such a date.
    pub fn checked_add(self, interval: DateInterval) -> (r: Option<Date>)
        ensures
            r is Some <==> day_in_range(self@ + interval@),
            r matches Some(date) ==> date@ == self@ + interval@,
    {
        match self.to_epoch_day().checked_add(interval.days()) {
            Some(day) => match Date::from_epoch_day(day) {
                Some(date) => Some(date),
                None => None,
            },
            None => None,
        }
    }

    /// The date `interval` days before this one, if there is such a date.
    pub fn checked_sub(self, interval: DateInterval) -> (r: Option<Date>)
        ensures
            r is Some <==> day_in_range(self@ - interval@),
            r matches Some(date) ==> date@ == self@ - interval@,
    {
        match self.to_epoch_day().checked_sub(interval.days()) {
            Some(day) => match Date::from_epoch_day(day) {
                Some(date) => Some(date),
                None => None,
            },
            None => None,
        }
    }

    /// The date `interval` months after this one, if there is such a date.
    pub fn checked_add_months(self, interval: MonthInterval) -> (r: Option<Date>)
        ensures
            r is Some <==> year_in_range(
                shift_months(self.spec_year(), self.spec_month(), self.spec_day(), interval@).0,
            ),
            r matches Some(date) ==> civil(date@) == shift_months(
                self.spec_year(),
                self.spec_month(),
                self.spec_day(),
                interval@,
            ),
    {
        let index: i32 = self.year() as i32 * 12 + self.month() as i32 - 1
            + interval.months() as i32;
        proof {
            lemma_civil(self@);
        }
        let year: i32 = (if index >= 0 { index } else { index - 11 }) / 12;
        assert(year == index as int / 12);
        if year <= 32767 {
            Some(self + interval)
        } else {
            None
        }
    }

    /// The date `interval` months before this one, if there is such a date.
    pub fn checked_sub_months(self, interval: MonthInterval) -> (r: Option<Date>)
        ensures
            r is Some <==> year_in_range(
                shift_months(self.spec_year(), self.spec_month(), self.spec_day(), -interval@).0,
            ),
            r matches Some(date) ==> civil(date@) == shift_months(
                self.spec_year(),
                self.spec_month(),
                self.spec_day(),
                -interval@,
            ),
    {
        let index: i32 = self.year() as i32 * 12 + self.month() as i32 - 1
            - interval.months() as i32;
        proof {
            lemma_civil(self@);
        }
        let year: i32 = (if index >= 0 { index } else { index - 11 }) / 12;
        assert(year == index as int / 12);
        if year >= -32768 {
            Some(self - interval)
        } else {
            None
        }
    }
}

} // verus!
