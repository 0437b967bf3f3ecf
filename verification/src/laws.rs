//! What holds of dates and intervals whatever their values are.
use crate::calendar::day_in_range;
use crate::calendar::day_number;
use crate::calendar::valid_date;
use crate::calendar::year_in_range;
use crate::date::Date;
use crate::date::lemma_date_error;
use crate::era::civil;
use crate::era::lemma_civil;
use crate::era::lemma_civil_of_day_number;
use crate::era::lemma_day_in_range;
use crate::format::iso_text;
use crate::interval::DateInterval;
use crate::parse::iso_fields;
use crate::parse::lemma_iso_form;
use crate::parse::lemma_zero_padded;
use crate::parse::ParseErrorKind;
use crate::text::zero_padded;
use vstd::prelude::*;
use vstd::std_specs::ops::AddSpec;
use vstd::std_specs::ops::NegSpec;
use vstd::std_specs::ops::SubSpec;

verus! {

/// The date of a year, a month and a day has that year, that month and that day: for every
/// day of the calendar, to take its day number and then the calendar day of that number gives
/// the day back.
pub proof fn law_civil_round_trip(year: int, month: int, day: int)
    requires
        valid_date(year, month, day),
    ensures
        civil(day_number(year, month, day)) == (year, month, day),
        year_in_range(year) ==> day_in_range(day_number(year, month, day)),
{
    lemma_civil_of_day_number(year, month, day);
    lemma_day_in_range(day_number(year, month, day));
}

/// Every day number in range is the day number of one date, whose year, month and day name a
/// day of the calendar with that number: to take the date of a day number and then its day
/// number gives the number back.
pub proof fn law_epoch_day_round_trip(day: int)
    requires
        day_in_range(day),
    ensures
        Date::of_day(day)@ == day,
        Date::of_day(day).wf(),
        valid_date(civil(day).0, civil(day).1, civil(day).2),
        day_number(civil(day).0, civil(day).1, civil(day).2) == day,
        year_in_range(civil(day).0),
{
    Date::lemma_of_day(day);
    lemma_civil(day);
    lemma_day_in_range(day);
}

/// To go on from a date `a` by the difference of `b` and `a` leads to `b`.
pub proof fn law_add_difference(a: Date, b: Date)
    requires
        a.wf(),
        b.wf(),
    ensures
        b.sub_req(a),
        a.add_req(b.sub_spec(a)),
        a.add_spec(b.sub_spec(a)) == b,
{
    DateInterval::lemma_of_days(b@ - a@);
    Date::lemma_of_day(b@);
    Date::lemma_view_injective(a.add_spec(b.sub_spec(a)), b);
}

/// To go back from a date by an interval is to go on by the interval in the other direction.
pub proof fn law_sub_is_add_of_negative(a: Date, interval: DateInterval)
    requires
        a.wf(),
        interval.neg_req(),
    ensures
        a.sub_req(interval) <==> a.add_req(interval.neg_spec()),
        a.sub_spec(interval) == a.add_spec(interval.neg_spec()),
{
    interval.lemma_days_fit();
    DateInterval::lemma_of_days(-interval@);
}

/// The difference of `a` and `b` is the difference of `b` and `a` in the other direction.
pub proof fn law_difference_antisymmetric(a: Date, b: Date)
    requires
        a.wf(),
        b.wf(),
    ensures
        a.sub_req(b),
        b.sub_spec(a).neg_req(),
        a.sub_spec(b) == b.sub_spec(a).neg_spec(),
{
    DateInterval::lemma_of_days(b@ - a@);
}

/// A date of a year from 0 to 9999, written in the form `YYYY-MM-DD`, is read as itself.
pub proof fn law_iso_round_trip(day: int)
    requires
        0 <= civil(day).0 <= 9999,
    ensures
        iso_fields(iso_text(day)) == Ok::<(int, int, int), ParseErrorKind>(civil(day)),
{
    let (year, month, day_of_month) = civil(day);
    lemma_civil(day);
    lemma_zero_padded(year, 4);
    lemma_zero_padded(month, 2);
    lemma_zero_padded(day_of_month, 2);
    lemma_iso_form(zero_padded(year, 4), zero_padded(month, 2), zero_padded(day_of_month, 2));
    lemma_date_error(year, month, day_of_month);
}

} // verus!
