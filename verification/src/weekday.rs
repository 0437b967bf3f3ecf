//! The days of the week.
use vstd::prelude::*;

verus! {

/// A day of the week. Sunday is day 0 of the week and Saturday is day 6.
#[derive(Copy, Clone, Debug, PartialEq, Eq, Structural, Ord, Hash)]
pub enum Weekday {
    Sunday,
    Monday,
    Tuesday,
    Wednesday,
    Thursday,
    Friday,
    Saturday,
}

impl View for Weekday {
    type V = int;

    /// The number of the day in its week, from 0 for Sunday to 6 for Saturday.
    open spec fn view(&self) -> int {
        match self {
            Weekday::Sunday => 0,
            Weekday::Monday => 1,
            Weekday::Tuesday => 2,
            Weekday::Wednesday => 3,
            Weekday::Thursday => 4,
            Weekday::Friday => 5,
            Weekday::Saturday => 6,
        }
    }
}

/// The English name of day `number` of the week.
pub open spec fn weekday_name(number: int) -> Seq<char> {
    if number == 0 {
        "Sunday"@
    } else if number == 1 {
        "Monday"@
    } else if number == 2 {
        "Tuesday"@
    } else if number == 3 {
        "Wednesday"@
    } else if number == 4 {
        "Thursday"@
    } else if number == 5 {
        "Friday"@
    } else {
        "Saturday"@
    }
}

/// The three letters that English shortens the name of day `number` of the week to.
pub open spec fn weekday_abbv(number: int) -> Seq<char> {
    if number == 0 {
        "Sun"@
    } else if number == 1 {
        "Mon"@
    } else if number == 2 {
        "Tue"@
    } else if number == 3 {
        "Wed"@
    } else if number == 4 {
        "Thu"@
    } else if number == 5 {
        "Fri"@
    } else {
        "Sat"@
    }
}

impl Weekday {
    /// The day of the week with number `number`.
    pub open spec fn of_number(number: int) -> Weekday {
        if number == 0 {
            Weekday::Sunday
        } else if number == 1 {
            Weekday::Monday
        } else if number == 2 {
            Weekday::Tuesday
        } else if number == 3 {
            Weekday::Wednesday
        } else if number == 4 {
            Weekday::Thursday
        } else if number == 5 {
            Weekday::Friday
        } else {
            Weekday::Saturday
        }
    }

    /// The number of the day in its week, from 0 for Sunday to 6 for Saturday.
    pub fn number(&self) -> (r: u8)
        ensures
            r == self@,
            r <= 6,
    {
        match self {
            Weekday::Sunday => 0,
            Weekday::Monday => 1,
            Weekday::Tuesday => 2,
            Weekday::Wednesday => 3,
            Weekday::Thursday => 4,
            Weekday::Friday => 5,
            Weekday::Saturday => 6,
        }
    }

    /// The English name of the day.
    pub fn name(&self) -> (r: &'static str)
        ensures
            r@ == weekday_name(self@),
    {
        match self {
            Weekday::Sunday => "Sunday",
            Weekday::Monday => "Monday",
            Weekday::Tuesday => "Tuesday",
            Weekday::Wednesday => "Wednesday",
            Weekday::Thursday => "Thursday",
            Weekday::Friday => "Friday",
            Weekday::Saturday => "Saturday",
        }
    }

    /// The three-letter abbreviation of the day's name.
    pub fn abbv(&self) -> (r: &'static str)
        ensures
            r@ == weekday_abbv(self@),
    {
        match self {
            Weekday::Sunday => "Sun",
            Weekday::Monday => "Mon",
            Weekday::Tuesday => "Tue",
            Weekday::Wednesday => "Wed",
            Weekday::Thursday => "Thu",
            Weekday::Friday => "Fri",
            Weekday::Saturday => "Sat",
        }
    }

    /// The English name of the day, as an owned string.
    pub fn to_string(&self) -> (r: String)
        ensures
            r@ == weekday_name(self@),
    {
        self.name().to_owned()
    }
}

} // verus!
