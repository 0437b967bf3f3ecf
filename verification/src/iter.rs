//! The dates from one date through another, in order.
use crate::calendar::MAX_DAY;
use crate::calendar::MIN_DAY;
use crate::date::Date;
use vstd::prelude::*;

verus! {

/// The dates from day number `start` through day number `end`, both included, a day apart and
/// in order. There are none where `end` is before `start`.
pub open spec fn dates_through(start: int, end: int) -> Seq<Date> {
    Seq::new(
        if start <= end {
            (end - start + 1) as nat
        } else {
            0nat
        },
        |i: int| Date::of_day(start + i),
    )
}

/// Gives the dates from one date through another, one after the other.
///
/// The model of the iterator, `self@`, is the sequence of the dates that it has yet to give.
pub struct DateIterator {
    /// The day number of the date that comes next, if `end` is not before it.
    cursor: i32,
    /// The last date to give.
    end: Date,
}

impl View for DateIterator {
    type V = Seq<Date>;

    closed spec fn view(&self) -> Seq<Date> {
        dates_through(self.cursor as int, self.end@)
    }
}

impl DateIterator {
    /// What every iterator satisfies: the day that comes next is a day that a date can have,
    /// or the day after the last of them.
    #[verifier::type_invariant]
    closed spec fn wf(self) -> bool {
        MIN_DAY <= self.cursor <= MAX_DAY + 1
    }

    /// The iterator that gives the dates from `start` through `end`.
    pub fn new(start: &Date, end: Date) -> (r: DateIterator)
        ensures
            r@ == dates_through(start@, end@),
    {
        DateIterator { cursor: start.to_epoch_day(), end }
    }

    /// The date that comes next, if one is left, which is then no longer among those to come.
    pub fn next(&mut self) -> (r: Option<Date>)
        ensures
            old(self)@.len() == 0 ==> r is None && final(self)@ == old(self)@,
            old(self)@.len() > 0 ==> r == Some(old(self)@[0]) && final(self)@ == old(self)@.skip(1),
    {
        proof {
            use_type_invariant(&*self);
        }
        let end = self.end.to_epoch_day();
        if self.cursor > end {
            None
        } else {
            let answer = Date::of_epoch_day(self.cursor);
            self.cursor = self.cursor + 1;
            assert(final(self)@ =~= old(self)@.skip(1));
            Some(answer)
        }
    }

    /// All the dates that are left, in order.
    pub fn collect(self) -> (r: Vec<Date>)
        ensures
            r@ == self@,
    {
        let mut rest = self;
        let mut dates: Vec<Date> = Vec::new();
        loop
            invariant
                dates@ + rest@ == self@,
            ensures
                rest@.len() == 0,
            decreases rest@.len(),
        {
            match rest.next() {
                Some(date) => {
                    dates.push(date);
                },
                None => {
                    break ;
                },
            }
        }
        assert(dates@ + rest@ =~= dates@);
        dates
    }
}

impl Date {
    /// The dates from this date through `end`, both included, in order: none where `end` is
    /// before this date.
    pub fn iter_through(&self, end: Date) -> (r: DateIterator)
        ensures
            r@ == dates_through(self@, end@),
    {
        DateIterator::new(self, end)
    }
}

} // verus!
