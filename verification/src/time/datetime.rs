use crate::time::calendar::{
    days_before_month, days_before_year, days_from_epoch, days_in_month, days_in_year, is_date,
    lemma_days_before_year_cycles, lemma_days_before_year_increases,
    lemma_days_from_epoch_injective, lemma_months_fill_year, year_days,
};
use crate::time::timezone::TimeZone;
use vstd::prelude::*;

verus! {

const MILLISECONDS_PER_SECOND: u64 = 1000;

const SECONDS_PER_MINUTE: u64 = 60;

const MINUTES_PER_HOUR: u64 = 60;

const HOURS_PER_DAY: u64 = 24;

const SECONDS_PER_HOUR: i32 = 3600;

const YEARS_PER_CYCLE: u32 = 400;

const DAYS_PER_CYCLE: u64 = 146_097;

/// The largest day count that a `u64` of milliseconds can reach.
const MAX_DAYS: u64 = 213_503_982_334;

/// A civil date and time of day, as a wall clock in `timezone` shows it.
///
/// ```rust,no_run
/// use embedded_utils::time::{DateTime, TimeZone};
///
/// let datetime = DateTime::from_unix_millis(1704067199998, TimeZone::UTC);
/// println!("datetime: {:?}", datetime);
/// ```
#[derive(Clone, Copy, Debug, PartialEq, Eq, Structural)]
pub struct DateTime {
    /// Year, 1970 or later
    pub year: u32,
    /// Month, 1 to 12
    pub month: u8,
    /// Day of the month, 1 to 31
    pub day: u8,
    /// Hour, 0 to 23
    pub hour: u8,
    /// Minute, 0 to 59
    pub minute: u8,
    /// Second, 0 to 59
    pub second: u8,
    /// Millisecond, 0 to 999
    pub millisecond: u16,
    /// The zone whose clock shows this date and time
    pub timezone: TimeZone,
}

impl DateTime {
    /// The record holds a date of the calendar and a time of day: the day
    /// exists in its month and year, and every other field is in its range.
    pub open spec fn is_valid(&self) -> bool {
        &&& is_date(self.year as int, self.month as int, self.day as int)
        &&& self.hour < 24
        &&& self.minute < 60
        &&& self.second < 60
        &&& self.millisecond < 1000
    }

    /// Seconds from 1970-01-01T00:00:00 on the zone's own clock to the date
    /// and time in this record.
    pub open spec fn local_seconds(&self) -> int {
        ((days_from_epoch(self.year as int, self.month as int, self.day as int) * 24 + self.hour)
            * 60 + self.minute) * 60 + self.second
    }

    /// The Unix time, in seconds, at which the zone's clock shows this record.
    pub open spec fn unix_seconds(&self) -> int {
        self.local_seconds() - self.timezone.offset_seconds()
    }

    /// The Unix time, in milliseconds, at which the zone's clock shows this
    /// record.
    pub open spec fn unix_millis(&self) -> int {
        self.unix_seconds() * 1000 + self.millisecond
    }

    /// This record is valid, and it is what a clock in `timezone` shows at
    /// the Unix time `unix_millis`, given in milliseconds.
    ///
    /// At most one record is: see [`DateTime::lemma_representation_unique`].
    pub open spec fn represents(&self, unix_millis: int, timezone: TimeZone) -> bool {
        &&& self.is_valid()
        &&& self.timezone == timezone
        &&& self@ == unix_millis
    }

    /// Create a new DateTime from a Unix timestamp in seconds.
    ///
    /// The timestamp is multiplied by 1000 and converted as milliseconds, so
    /// it has to be small enough for the product to fit in a `u64`.
    #[inline]
    pub fn from_unix_secs(timestamp: u64, timezone: TimeZone) -> (datetime: DateTime)
        requires
            timestamp * 1000 <= u64::MAX,
        ensures
            datetime.is_valid(),
            datetime.timezone == timezone,
            datetime@ == timestamp * 1000,
            datetime.unix_seconds() == timestamp,
            datetime.millisecond == 0,
    {
        DateTime::from_unix_millis(timestamp * MILLISECONDS_PER_SECOND, timezone)
    }

    /// Create a new DateTime from a Unix timestamp in milliseconds.
    ///
    /// The result is the one valid record that stands for `timestamp` in
    /// `timezone`, for every timestamp that a `u64` can hold.
    ///
    /// The zone moves the hour by its offset in whole hours and the date by at
    /// most one day. Every zone is a whole number of hours east of UTC (see
    /// [`TimeZone::lemma_offset_is_whole_hours_east`]), so nothing of the
    /// offset is lost, and the local date is never before 1970-01-01.
    pub fn from_unix_millis(timestamp: u64, timezone: TimeZone) -> (datetime: DateTime)
        ensures
            datetime.is_valid(),
            datetime.timezone == timezone,
            datetime@ == timestamp,
            datetime.unix_seconds() == timestamp / 1000,
            datetime.millisecond == timestamp % 1000,
    {
        let millisecond: u64 = timestamp % MILLISECONDS_PER_SECOND;
        let seconds: u64 = timestamp / MILLISECONDS_PER_SECOND;
        let second: u64 = seconds % SECONDS_PER_MINUTE;
        let minutes: u64 = seconds / SECONDS_PER_MINUTE;
        let minute: u64 = minutes % MINUTES_PER_HOUR;
        let hours: u64 = minutes / MINUTES_PER_HOUR;
        let utc_hour: u64 = hours % HOURS_PER_DAY;
        let utc_days: u64 = hours / HOURS_PER_DAY;

        proof {
            timezone.lemma_offset_is_whole_hours_east();
        }
        let shift: i32 = timezone.get_offset() / SECONDS_PER_HOUR;
        let (local_days, hour): (i64, u64) = shift_hour(utc_days, utc_hour, shift);
        let (year, day_of_year): (u32, u64) = year_of_day(local_days as u64);
        let (month, day): (u8, u8) = month_of_day(year, day_of_year);

        DateTime {
            year,
            month,
            day,
            hour: hour as u8,
            minute: minute as u8,
            second: second as u8,
            millisecond: millisecond as u16,
            timezone,
        }
    }
}

impl View for DateTime {
    type V = int;

    /// A record is viewed as the instant that it stands for: the Unix time in
    /// milliseconds at which the zone's clock shows it.
    open spec fn view(&self) -> int {
        self.unix_millis()
    }
}

impl DateTime {
    /// What each field of a record is, given the instant that it represents:
    /// the milliseconds and seconds split the Unix time, and the time of day
    /// and the day count split the seconds on the zone's clock.
    pub proof fn lemma_fields_of_representation(self, unix_millis: int, timezone: TimeZone)
        requires
            self.represents(unix_millis, timezone),
        ensures
            self.millisecond == unix_millis % 1000,
            self.unix_seconds() == unix_millis / 1000,
            self.local_seconds() == unix_millis / 1000 + timezone.offset_seconds(),
            self.second == self.local_seconds() % 60,
            self.minute == (self.local_seconds() / 60) % 60,
            self.hour == (self.local_seconds() / 3600) % 24,
            days_from_epoch(self.year as int, self.month as int, self.day as int)
                == self.local_seconds() / 86_400,
    {
    }

    /// No instant has two representations in one zone: a valid record is
    /// fixed by its zone and the Unix time that it stands for.
    pub proof fn lemma_representation_unique(
        self,
        other: DateTime,
        unix_millis: int,
        timezone: TimeZone,
    )
        requires
            self.represents(unix_millis, timezone),
            other.represents(unix_millis, timezone),
        ensures
            self == other,
    {
        self.lemma_fields_of_representation(unix_millis, timezone);
        other.lemma_fields_of_representation(unix_millis, timezone);
        lemma_days_from_epoch_injective(
            self.year as int,
            self.month as int,
            self.day as int,
            other.year as int,
            other.month as int,
            other.day as int,
        );
    }

    /// Converting a count of seconds gives the same record as converting
    /// that count times 1000 as milliseconds, and its millisecond is 0.
    ///
    /// `from_secs` is a record as `from_unix_secs(timestamp, timezone)`
    /// returns it, `from_millis` one as `from_unix_millis(timestamp * 1000,
    /// timezone)` returns it.
    pub proof fn lemma_seconds_agree_with_milliseconds(
        timestamp: u64,
        timezone: TimeZone,
        from_secs: DateTime,
        from_millis: DateTime,
    )
        requires
            from_secs.represents(timestamp * 1000, timezone),
            from_secs.unix_seconds() == timestamp,
            from_secs.millisecond == 0,
            from_millis.represents(timestamp * 1000, timezone),
        ensures
            from_secs == from_millis,
            from_millis.millisecond == 0,
            from_millis.unix_seconds() == timestamp,
    {
        from_secs.lemma_representation_unique(from_millis, timestamp * 1000, timezone);
    }

    /// The last millisecond of a second is number 999, and one millisecond
    /// later the millisecond is back at 0 and the next second has begun.
    ///
    /// `last` is a record as `from_unix_millis` returns it for a timestamp
    /// that ends in 999, `next` one as it returns for the timestamp after
    /// that.
    pub proof fn lemma_millisecond_rollover(
        timestamp: u64,
        timezone: TimeZone,
        last: DateTime,
        next: DateTime,
    )
        requires
            timestamp % 1000 == 999,
            last.represents(timestamp as int, timezone),
            next.represents(timestamp + 1, timezone),
        ensures
            last.millisecond == 999,
            next.millisecond == 0,
            next.unix_seconds() == last.unix_seconds() + 1,
            next.second == (last.second + 1) % 60,
    {
        last.lemma_fields_of_representation(timestamp as int, timezone);
        next.lemma_fields_of_representation(timestamp + 1, timezone);
    }

    /// A clock in a zone shows what a UTC clock shows once the zone's offset
    /// has passed: the two records differ in their zone and in nothing else.
    pub proof fn lemma_zone_shifts_clock(
        unix_millis: int,
        timezone: TimeZone,
        in_zone: DateTime,
        in_utc: DateTime,
    )
        requires
            in_zone.represents(unix_millis, timezone),
            in_utc.represents(unix_millis + timezone.offset_seconds() * 1000, TimeZone::UTC),
        ensures
            in_zone == (DateTime { timezone, ..in_utc }),
    {
        let shifted = DateTime { timezone, ..in_utc };
        in_zone.lemma_representation_unique(shifted, unix_millis, timezone);
    }
}

/// Moves a UTC hour of the day `shift` hours east, carrying into the day
/// count where the hour leaves the day on either side.
fn shift_hour(days: u64, hour: u64, shift: i32) -> (local: (i64, u64))
    requires
        days <= MAX_DAYS,
        hour < 24,
        -24 < shift < 24,
    ensures
        local.1 < 24,
        local.0 * 24 + local.1 == days * 24 + hour + shift,
{
    let mut local_days: i64 = days as i64;
    let mut local_hour: i32 = hour as i32 + shift;
    if local_hour < 0 {
        local_hour = local_hour + HOURS_PER_DAY as i32;
        local_days = local_days - 1;
    } else if local_hour >= HOURS_PER_DAY as i32 {
        local_hour = local_hour - HOURS_PER_DAY as i32;
        local_days = local_days + 1;
    }
    (local_days, local_hour as u64)
}

/// Finds the year that day number `days` falls in, counting from day 0 =
/// 1970-01-01, and the number of that day within the year, counting from 0.
///
/// Whole cycles of 400 years are taken off at once, so the search that
/// follows walks through fewer than 400 years, however large `days` is.
fn year_of_day(days: u64) -> (found: (u32, u64))
    requires
        days <= MAX_DAYS + 1,
    ensures
        1970 <= found.0,
        found.1 < year_days(found.0 as int),
        days_before_year(found.0 as int) + found.1 == days,
{
    let cycles: u64 = days / DAYS_PER_CYCLE;
    let mut year: u32 = 1970 + YEARS_PER_CYCLE * (cycles as u32);
    let mut rest: u64 = days % DAYS_PER_CYCLE;
    proof {
        lemma_days_before_year_cycles(cycles as int);
        lemma_days_before_year_cycles(cycles + 1);
    }
    while rest >= days_in_year(year)
        invariant
            1970 <= year < 1970 + 400 * (cycles + 1),
            days_before_year(year as int) + rest == days,
            days < days_before_year(1970 + 400 * (cycles + 1)),
            cycles <= MAX_DAYS / DAYS_PER_CYCLE,
        decreases rest,
    {
        proof {
            if year + 1 >= 1970 + 400 * (cycles + 1) {
                lemma_days_before_year_increases(1970 + 400 * (cycles + 1), year + 1);
            }
        }
        rest = rest - days_in_year(year);
        year = year + 1;
    }
    (year, rest)
}

/// Finds the month of `year` that day number `day_of_year` falls in, counting
/// from day 0 = January 1st, and the day of that month, counting from 1.
fn month_of_day(year: u32, day_of_year: u64) -> (found: (u8, u8))
    requires
        1970 <= year,
        day_of_year < year_days(year as int),
    ensures
        is_date(year as int, found.0 as int, found.1 as int),
        days_before_month(year as int, found.0 as int) + (found.1 - 1) == day_of_year,
{
    let mut month: u8 = 1;
    let mut rest: u64 = day_of_year;
    while rest >= days_in_month(year, month)
        invariant
            1 <= month <= 12,
            days_before_month(year as int, month as int) + rest == day_of_year,
            day_of_year < year_days(year as int),
        decreases 12 - month,
    {
        proof {
            lemma_months_fill_year(year as int);
        }
        rest = rest - days_in_month(year, month);
        month = month + 1;
    }
    (month, (rest + 1) as u8)
}

} // verus!
