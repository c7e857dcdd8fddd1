//! Named lengths of time.

use vstd::prelude::*;

verus! {

/// A Duration represents the elapsed time between two instants as a count of
/// nanoseconds in an `i64`. The representation limits the largest
/// representable duration to approximately 290 years.
pub type Duration = i64;

// Common durations. There is no definition for units of a day or larger, to
// avoid confusion across daylight saving time transitions.
/// One nanosecond.
pub const NANOSECOND: Duration = 1;

/// One microsecond.
pub const MICROSECOND: Duration = 1000 * NANOSECOND;

/// One millisecond.
pub const MILLISECOND: Duration = 1000 * MICROSECOND;

/// One second.
pub const SECOND: Duration = 1000 * MILLISECOND;

/// One minute.
pub const MINUTE: Duration = 60 * SECOND;

/// One hour.
pub const HOUR: Duration = 60 * MINUTE;

} // verus!
