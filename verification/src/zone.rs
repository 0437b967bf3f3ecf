//! Dates in a time zone, and the date of today.
//!
//! The offsets of the time zones come from the time zone database that `tzdb` holds, and the
//! time from the system's clock. Neither is known here: the functions of this module say what
//! they make of either, whatever it is.
use crate::calendar::day_in_range;
use crate::date::Date;
use std::time::SystemTime;
use vstd::prelude::*;

verus! {

/// Why there is no date for a time in a time zone, or for now.
#[derive(Copy, Clone, Debug, PartialEq, Eq, Structural)]
pub enum TimeError {
    /// The time zone database has no time zone of the name given.
    UnknownZone,
    /// The time zone database does not say what the offset of the time zone is at the time
    /// given.
    NoLocalTime,
    /// The day of the time lies in no year that a date can have.
    OutOfRange,
    /// The system's clock shows a time before 1970.
    ClockBeforeEpoch,
    /// The system does not say what its time zone is, or it is one that the time zone
    /// database does not have.
    NoLocalZone,
}

/// The time zone database's answer for the time zone named `zone` at the second
/// `unix_timestamp` of Unix time: the number of seconds that the time zone is ahead of UTC
/// then, or `UnknownZone` or `NoLocalTime`.
pub uninterp spec fn zone_offset(zone: Seq<char>, unix_timestamp: int) -> Result<int, TimeError>;

/// Looks up, with `tzdb::tz_by_name`, the time zone of the name `zone`, and in it, with
/// `find_local_time_type` and `ut_offset` of `tz-rs`, the offset from UTC at `unix_timestamp`.
/// The contract gives the answer a name, `zone_offset`, and says no more of it than that it
/// depends on the name and the time alone: the database is a part of `tzdb_data`.
#[verifier::external_body]
fn lookup_offset(zone: &str, unix_timestamp: i64) -> (r: Result<i32, TimeError>)
    ensures
        match r {
            Ok(offset) => zone_offset(zone@, unix_timestamp as int) == Ok::<int, TimeError>(
                offset as int,
            ),
            Err(error) => zone_offset(zone@, unix_timestamp as int) == Err::<int, TimeError>(error)
                && (error == TimeError::UnknownZone || error == TimeError::NoLocalTime),
        },
{
    match tzdb::tz_by_name(zone) {
        Some(time_zone) => match time_zone.find_local_time_type(unix_timestamp) {
            Ok(local_time_type) => Ok(local_time_type.ut_offset()),
            Err(_) => Err(TimeError::NoLocalTime),
        },
        None => Err(TimeError::UnknownZone),
    }
}

/// Looks up, with `tzdb::local_tz`, the time zone of the system, and in it, with
/// `find_local_time_type` and `ut_offset` of `tz-rs`, the offset from UTC at `unix_timestamp`.
/// Which time zone that is depends on the system, so the contract says only which errors
/// there can be.
#[verifier::external_body]
fn lookup_local_offset(unix_timestamp: i64) -> (r: Result<i32, TimeError>)
    ensures
        r matches Err(error) ==> error == TimeError::NoLocalZone || error == TimeError::NoLocalTime,
{
    match tzdb::local_tz() {
        Some(time_zone) => match time_zone.find_local_time_type(unix_timestamp) {
            Ok(local_time_type) => Ok(local_time_type.ut_offset()),
            Err(_) => Err(TimeError::NoLocalTime),
        },
        None => Err(TimeError::NoLocalZone),
    }
}

/// `SystemTime` of std: a time that the system's clock has shown.
#[verifier::external_type_specification]
#[verifier::external_body]
pub struct ExSystemTime(std::time::SystemTime);

/// `SystemTimeError` of std: what `SystemTime::duration_since` gives where the second time
/// is the later one.
#[verifier::external_type_specification]
#[verifier::external_body]
pub struct ExSystemTimeError(std::time::SystemTimeError);

/// `SystemTime::now` of std reads the system's clock. The contract says nothing of what it
/// shows.
pub assume_specification[ std::time::SystemTime::now ]() -> std::time::SystemTime;

/// `SystemTime::duration_since` of std gives the time from `earlier` to `time`, or an error
/// where `earlier` is the later of the two. The contract says nothing of which it is.
pub assume_specification[ std::time::SystemTime::duration_since ](
    time: &std::time::SystemTime,
    earlier: std::time::SystemTime,
) -> Result<std::time::Duration, std::time::SystemTimeError>;

/// `Duration::as_secs` of std gives the whole seconds of a duration. The contract says nothing
/// of their number.
pub assume_specification[ std::time::Duration::as_secs ](duration: &std::time::Duration) -> u64;

/// The beginning of Unix time, `UNIX_EPOCH` of std. The contract says nothing of it.
#[verifier::external_body]
fn unix_epoch() -> SystemTime {
    std::time::UNIX_EPOCH
}

/// The second of Unix time that the system's clock shows, if it shows none before 1970.
fn now() -> (r: Option<u64>) {
    match SystemTime::now().duration_since(unix_epoch()) {
        Ok(duration) => Some(duration.as_secs()),
        Err(_) => None,
    }
}

/// The date on which the second `unix_timestamp` of Unix time falls where the clocks are
/// `offset` seconds ahead of UTC, if its day lies in a year that a date can have.
pub open spec fn date_at_offset(unix_timestamp: int, offset: int) -> Result<Date, TimeError> {
    let day = (unix_timestamp + offset) / 86_400;
    if day_in_range(day) {
        Ok(Date::of_day(day))
    } else {
        Err(TimeError::OutOfRange)
    }
}

/// The date on which the second `unix_timestamp` of Unix time falls in the time zone named
/// `zone`.
pub open spec fn date_in_zone(zone: Seq<char>, unix_timestamp: int) -> Result<Date, TimeError> {
    match zone_offset(zone, unix_timestamp) {
        Ok(offset) => date_at_offset(unix_timestamp, offset),
        Err(error) => Err(error),
    }
}

/// The date that it is where the clocks are `offset` seconds ahead of UTC, when the clock of
/// the system shows the second `now` of Unix time, or a time before 1970.
pub open spec fn date_by_clock(now: Option<u64>, offset: int) -> Result<Date, TimeError> {
    match now {
        Some(seconds) => date_at_offset(seconds as int, offset),
        None => Err(TimeError::ClockBeforeEpoch),
    }
}

/// The date that it is in the time zone named `zone`, when the clock of the system shows the
/// second `now` of Unix time, or a time before 1970.
pub open spec fn date_in_zone_by_clock(zone: Seq<char>, now: Option<u64>) -> Result<
    Date,
    TimeError,
> {
    match now {
        Some(seconds) => if seconds > i64::MAX {
            Err(TimeError::OutOfRange)
        } else {
            date_in_zone(zone, seconds as int)
        },
        None => Err(TimeError::ClockBeforeEpoch),
    }
}

impl Date {
    /// The date on which the second `unix_timestamp` of Unix time falls where the clocks are
    /// `offset` seconds ahead of UTC.
    pub fn from_timestamp_offset(unix_timestamp: i64, offset: i32) -> (r: Result<Date, TimeError>)
        ensures
            r == date_at_offset(unix_timestamp as int, offset as int),
    {
        let r = match unix_timestamp.checked_add(offset as i64) {
            Some(local) => match Date::try_from_timestamp(local) {
                Some(date) => Ok(date),
                None => Err(TimeError::OutOfRange),
            },
            None => Err(TimeError::OutOfRange),
        };
        proof {
            if let Ok(date) = r {
                Date::lemma_of_day(date@);
                Date::lemma_view_injective(date, Date::of_day(date@));
            }
        }
        r
    }

    /// The date on which the second `unix_timestamp` of Unix time falls in the time zone named
    /// `tz`.
    pub fn from_timestamp_tz(unix_timestamp: i64, tz: &'static str) -> (r: Result<Date, TimeError>)
        ensures
            r == date_in_zone(tz@, unix_timestamp as int),
    {
        match lookup_offset(tz, unix_timestamp) {
            Ok(offset) => Date::from_timestamp_offset(unix_timestamp, offset),
            Err(error) => Err(error),
        }
    }

    /// The Unix time, in seconds, at which this date begins in the time zone named `tz`. The
    /// offset of the time zone is taken as it is when the date begins in UTC.
    pub fn timestamp_tz(&self, tz: &'static str) -> (r: Result<i64, TimeError>)
        ensures
            match zone_offset(tz@, self@ * 86_400) {
                Ok(offset) => r == Ok::<i64, TimeError>((self@ * 86_400 - offset) as i64),
                Err(error) => r == Err::<i64, TimeError>(error),
            },
    {
        let midnight = self.timestamp();
        proof {
            use_type_invariant(self);
        }
        match lookup_offset(tz, midnight) {
            Ok(offset) => Ok(midnight - offset as i64),
            Err(error) => Err(error),
        }
    }

    /// The date that it is where the clocks are `offset` seconds ahead of UTC, when the clock
    /// of the system shows the second `now` of Unix time, or, with `None`, a time before 1970.
    pub fn from_clock(now: Option<u64>, offset: i32) -> (r: Result<Date, TimeError>)
        ensures
            r == date_by_clock(now, offset as int),
    {
        match now {
            Some(seconds) => {
                if seconds > i64::MAX as u64 {
                    Err(TimeError::OutOfRange)
                } else {
                    Date::from_timestamp_offset(seconds as i64, offset)
                }
            },
            None => Err(TimeError::ClockBeforeEpoch),
        }
    }

    /// The date that it is in the time zone named `tz`, when the clock of the system shows
    /// the second `now` of Unix time, or, with `None`, a time before 1970.
    pub fn from_clock_tz(now: Option<u64>, tz: &'static str) -> (r: Result<Date, TimeError>)
        ensures
            r == date_in_zone_by_clock(tz@, now),
    {
        match now {
            Some(seconds) => {
                if seconds > i64::MAX as u64 {
                    Err(TimeError::OutOfRange)
                } else {
                    Date::from_timestamp_tz(seconds as i64, tz)
                }
            },
            None => Err(TimeError::ClockBeforeEpoch),
        }
    }

    /// The date that it is in UTC, by the system's clock: the date of what the clock shows,
    /// whatever that is.
    pub fn today_utc() -> (r: Result<Date, TimeError>)
        ensures
            exists|now: Option<u64>| r == date_by_clock(now, 0),
    {
        Date::from_clock(now(), 0)
    }

    /// The date that it is in the time zone named `tz`, by the system's clock: the date in that
    /// time zone of what the clock shows, whatever that is.
    pub fn today_tz(tz: &'static str) -> (r: Result<Date, TimeError>)
        ensures
            exists|now: Option<u64>| r == date_in_zone_by_clock(tz@, now),
    {
        Date::from_clock_tz(now(), tz)
    }

    /// The date that it is in the time zone of the system, by the system's clock: the date of
    /// what the clock shows, at the offset from UTC that the system's time zone has then,
    /// whatever they are; or that the time zone or its offset is not known.
    pub fn today() -> (r: Result<Date, TimeError>)
        ensures
            r == Err::<Date, TimeError>(TimeError::NoLocalZone) || r == Err::<Date, TimeError>(
                TimeError::NoLocalTime,
            ) || r == Err::<Date, TimeError>(TimeError::OutOfRange) || exists|
                now: Option<u64>,
                offset: int,
            | r == date_by_clock(now, offset),
    {
        let now = now();
        match now {
            Some(seconds) => {
                if seconds > i64::MAX as u64 {
                    Err(TimeError::OutOfRange)
                } else {
                    match lookup_local_offset(seconds as i64) {
                        Ok(offset) => {
                            let r = Date::from_clock(now, offset);
                            assert(r == date_by_clock(now, offset as int));
                            r
                        },
                        Err(error) => Err(error),
                    }
                }
            },
            None => {
                assert(date_by_clock(None, 0) == Err::<Date, TimeError>(
                    TimeError::ClockBeforeEpoch,
                ));
                Err(TimeError::ClockBeforeEpoch)
            },
        }
    }
}

} // verus!
