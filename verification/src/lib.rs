//! A calendar-date value type for the proleptic Gregorian calendar.
//!
//! A [`Date`] is one day of the calendar, in a year from -32768 to 32767. It is stored as its
//! day number, the number of days from 1970-01-01 to it, and its year, month and day are
//! derived from that number. Dates can be moved by days and by months, written after a
//! template and read back.
//!
//! The meaning of every function is stated over the calendar of [`calendar`]: the leap-year
//! rule, the lengths of the months, and the numbering of the days.
pub mod calendar;
pub mod date;
pub mod duration;
pub mod easter;
pub mod era;
pub mod format;
pub mod interval;
pub mod iter;
pub mod laws;
pub mod order;
pub mod parse;
pub mod text;
pub mod weekday;
pub mod zone;

pub use date::Date;
pub use date::DateError;
pub use format::FormattedDate;
pub use interval::DateInterval;
pub use interval::MonthInterval;
pub use parse::ParseError;
pub use weekday::Weekday;
