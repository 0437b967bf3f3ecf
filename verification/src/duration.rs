//! Durations in whole days, and the arithmetic of dates with them, year by year.
//!
//! A date that moves by a duration keeps its place in its year as long as the year has such a
//! day, and goes on into the next year, or back into the one before, as often as it has not.
use crate::calendar::day_in_range;
use crate::calendar::days_before_year;
use crate::calendar::lemma_days_before_year_monotone;
use crate::calendar::lemma_days_before_year_step;
use crate::calendar::year_days_wide;
use crate::date::Date;
use crate::era::lemma_range_ends;
use crate::interval::DateInterval;
use crate::text::magnitude;
use std::ops::Add;
use std::ops::AddAssign;
use std::ops::Neg;
use std::ops::Sub;
use std::ops::SubAssign;
use vstd::prelude::*;
use vstd::std_specs::cmp::PartialEqSpecImpl;
use vstd::std_specs::ops::AddSpecImpl;
use vstd::std_specs::ops::NegSpecImpl;
use vstd::std_specs::ops::SubSpecImpl;

verus! {

/// A duration of whole days, which may be negative.
#[derive(Copy, Clone, Debug, PartialEq, Eq, Structural, Hash)]
pub struct Duration {
    /// The number of days.
    pub days: i32,
}

impl View for Duration {
    type V = int;

    open spec fn view(&self) -> int {
        self.days as int
    }
}

impl Duration {
    /// The duration of `days` days.
    pub fn days(days: i32) -> (r: Duration)
        ensures
            r.days == days,
    {
        Duration { days }
    }

    /// The duration of as many days that is not negative.
    pub fn abs(self) -> (r: Duration)
        requires
            self.days != i32::MIN,
        ensures
            r.days == if self.days < 0 {
                -self.days
            } else {
                self.days as int
            },
    {
        if self.days < 0 {
            Duration { days: -self.days }
        } else {
            self
        }
    }
}

impl NegSpecImpl for Duration {
    open spec fn obeys_neg_spec() -> bool {
        true
    }

    open spec fn neg_req(self) -> bool {
        self.days != i32::MIN
    }

    open spec fn neg_spec(self) -> Duration {
        Duration { days: (-self.days) as i32 }
    }
}

impl Neg for Duration {
    type Output = Duration;

    /// The duration of as many days in the other direction.
    fn neg(self) -> (r: Duration) {
        Duration { days: -self.days }
    }
}

impl PartialEqSpecImpl<Duration> for DateInterval {
    open spec fn obeys_eq_spec() -> bool {
        true
    }

    open spec fn eq_spec(&self, other: &Duration) -> bool {
        self@ == other.days
    }
}

impl PartialEq<Duration> for DateInterval {
    /// Whether this interval has as many days as the duration `other`.
    fn eq(&self, other: &Duration) -> (r: bool) {
        self.days() == other.days
    }
}

impl Date {
    /// The date `days` days after this one, found by going on from year to year.
    fn days_later(self, days: u32) -> (r: Date)
        requires
            day_in_range(self@ + days),
        ensures
            r@ == self@ + days,
    {
        let mut year: i32 = self.year() as i32;
        let mut day_of_year: i64 = self.day_of_year() as i64 - 1 + days as i64;
        proof {
            lemma_range_ends();
        }
        while day_of_year >= year_days_wide(year) as i64
            invariant
                days_before_year(year as int) + day_of_year == self@ + days,
                day_in_range(self@ + days),
                0 <= day_of_year < 0x2_0000_0000,
                -32768 <= year <= 32767,
            decreases day_of_year,
        {
            proof {
                lemma_days_before_year_step(year as int);
                if year == 32767 {
                    lemma_range_ends();
                }
            }
            day_of_year = day_of_year - year_days_wide(year) as i64;
            year = year + 1;
        }
        Date::of_epoch_day(Date::new(year as i16, 1, 1).to_epoch_day() + day_of_year as i32)
    }

    /// The date `days` days before this one, found by going back from year to year.
    fn days_earlier(self, days: u32) -> (r: Date)
        requires
            day_in_range(self@ - days),
        ensures
            r@ == self@ - days,
    {
        let mut year: i32 = self.year() as i32;
        let mut day_of_year: i64 = self.day_of_year() as i64 - 1;
        proof {
            lemma_range_ends();
        }
        // Take in whole years until the days to go back lie within them.
        while days as i64 > day_of_year
            invariant
                days_before_year(year as int) + day_of_year == self@,
                day_in_range(self@ - days),
                0 <= day_of_year < 0x2_0000_0000,
                -32768 <= year <= 32767,
            decreases (if days > day_of_year { days - day_of_year } else { 0 }),
        {
            proof {
                lemma_days_before_year_step(year - 1);
                if year == -32768 {
                    lemma_range_ends();
                }
            }
            year = year - 1;
            day_of_year = day_of_year + year_days_wide(year) as i64;
        }
        proof {
            lemma_days_before_year_step(year as int);
            lemma_days_before_year_monotone(year + 1, 32768);
        }
        Date::of_epoch_day(
            Date::new(year as i16, 1, 1).to_epoch_day() + (day_of_year - days as i64) as i32,
        )
    }
}

impl AddSpecImpl<Duration> for Date {
    open spec fn obeys_add_spec() -> bool {
        true
    }

    open spec fn add_req(self, duration: Duration) -> bool {
        day_in_range(self@ + duration.days)
    }

    open spec fn add_spec(self, duration: Duration) -> Date {
        Date::of_day(self@ + duration.days)
    }
}

impl Add<Duration> for Date {
    type Output = Date;

    /// The date `duration` later than this one. To go on by a negative duration is to go back
    /// by as many days.
    fn add(self, duration: Duration) -> (r: Date)
        ensures
            r@ == self@ + duration.days,
    {
        let r = if duration.days < 0 {
            self.days_earlier(magnitude(duration.days))
        } else {
            self.days_later(magnitude(duration.days))
        };
        proof {
            Date::lemma_of_day(self@ + duration.days);
            Date::lemma_view_injective(r, Date::of_day(self@ + duration.days));
        }
        r
    }
}

impl AddAssign<Duration> for Date {
    /// Moves this date on by `duration`.
    fn add_assign(&mut self, duration: Duration)
        requires
            day_in_range(old(self)@ + duration.days),
        ensures
            final(self)@ == old(self)@ + duration.days,
    {
        *self = self.add(duration);
    }
}

impl SubSpecImpl<Duration> for Date {
    open spec fn obeys_sub_spec() -> bool {
        true
    }

    open spec fn sub_req(self, duration: Duration) -> bool {
        day_in_range(self@ - duration.days)
    }

    open spec fn sub_spec(self, duration: Duration) -> Date {
        Date::of_day(self@ - duration.days)
    }
}

impl Sub<Duration> for Date {
    type Output = Date;

    /// The date `duration` earlier than this one. To go back by a negative duration is to go
    /// on by as many days.
    fn sub(self, duration: Duration) -> (r: Date)
        ensures
            r@ == self@ - duration.days,
    {
        let r = if duration.days < 0 {
            self.days_later(magnitude(duration.days))
        } else {
            self.days_earlier(magnitude(duration.days))
        };
        proof {
            Date::lemma_of_day(self@ - duration.days);
            Date::lemma_view_injective(r, Date::of_day(self@ - duration.days));
        }
        r
    }
}

impl SubAssign<Duration> for Date {
    /// Moves this date back by `duration`.
    fn sub_assign(&mut self, duration: Duration)
        requires
            day_in_range(old(self)@ - duration.days),
        ensures
            final(self)@ == old(self)@ - duration.days,
    {
        *self = self.sub(duration);
    }
}

} // verus!
