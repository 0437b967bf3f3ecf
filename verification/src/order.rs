//! The order of dates, of intervals and of the days of the week.
//!
//! Dates are ordered as their days are in time, intervals by their length, and the days of the
//! week from Sunday to Saturday.
use crate::date::Date;
use crate::interval::DateInterval;
use crate::interval::MonthInterval;
use crate::weekday::Weekday;
use std::cmp::Ordering;
use vstd::prelude::*;
use vstd::std_specs::cmp::PartialOrdSpecImpl;

verus! {

/// How the number `a` stands to the number `b`.
pub open spec fn compare(a: int, b: int) -> Ordering {
    if a < b {
        Ordering::Less
    } else if a == b {
        Ordering::Equal
    } else {
        Ordering::Greater
    }
}

impl PartialOrdSpecImpl for Date {
    open spec fn obeys_partial_cmp_spec() -> bool {
        true
    }

    open spec fn partial_cmp_spec(&self, other: &Date) -> Option<Ordering> {
        Some(compare(self@, other@))
    }
}

impl PartialOrd for Date {
    fn partial_cmp(&self, other: &Date) -> (r: Option<Ordering>) {
        let a = self.to_epoch_day();
        let b = other.to_epoch_day();
        if a < b {
            Some(Ordering::Less)
        } else if a == b {
            Some(Ordering::Equal)
        } else {
            Some(Ordering::Greater)
        }
    }
}

impl PartialOrdSpecImpl for DateInterval {
    open spec fn obeys_partial_cmp_spec() -> bool {
        true
    }

    open spec fn partial_cmp_spec(&self, other: &DateInterval) -> Option<Ordering> {
        Some(compare(self@, other@))
    }
}

impl PartialOrd for DateInterval {
    fn partial_cmp(&self, other: &DateInterval) -> (r: Option<Ordering>) {
        let a = self.days();
        let b = other.days();
        if a < b {
            Some(Ordering::Less)
        } else if a == b {
            Some(Ordering::Equal)
        } else {
            Some(Ordering::Greater)
        }
    }
}

impl PartialOrdSpecImpl for MonthInterval {
    open spec fn obeys_partial_cmp_spec() -> bool {
        true
    }

    open spec fn partial_cmp_spec(&self, other: &MonthInterval) -> Option<Ordering> {
        Some(compare(self@, other@))
    }
}

impl PartialOrd for MonthInterval {
    fn partial_cmp(&self, other: &MonthInterval) -> (r: Option<Ordering>) {
        let a = self.months();
        let b = other.months();
        if a < b {
            Some(Ordering::Less)
        } else if a == b {
            Some(Ordering::Equal)
        } else {
            Some(Ordering::Greater)
        }
    }
}

impl PartialOrdSpecImpl for Weekday {
    open spec fn obeys_partial_cmp_spec() -> bool {
        true
    }

    open spec fn partial_cmp_spec(&self, other: &Weekday) -> Option<Ordering> {
        Some(compare(self@, other@))
    }
}

impl PartialOrd for Weekday {
    fn partial_cmp(&self, other: &Weekday) -> (r: Option<Ordering>) {
        let a = self.number();
        let b = other.number();
        if a < b {
            Some(Ordering::Less)
        } else if a == b {
            Some(Ordering::Equal)
        } else {
            Some(Ordering::Greater)
        }
    }
}

} // verus!
