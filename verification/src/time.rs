//! Unix timestamps as civil date-times.
//!
//! [`DateTime::from_unix_millis`] and [`DateTime::from_unix_secs`] break a
//! count of milliseconds or seconds since 1970-01-01T00:00:00Z into year,
//! month, day, hour, minute, second and millisecond, as a wall clock in the
//! chosen [`TimeZone`] would show them.

pub mod calendar;
mod datetime;
pub mod duration;
mod timezone;

pub use datetime::DateTime;
pub use timezone::TimeZone;
