use vstd::prelude::*;

verus! {

/// A time zone that keeps one offset from UTC all year round.
///
/// The set of zones is closed: every variant has its offset in
/// [`TimeZone::offset_seconds`], and there is no way to build a zone with any
/// other offset.
#[derive(Clone, Copy, Debug, PartialEq, Eq, Structural)]
pub enum TimeZone {
    /// Coordinated Universal Time.
    UTC,
    /// Asia/Shanghai, eight hours ahead of UTC.
    AsiaShanghai,
}

impl TimeZone {
    /// Seconds that a clock in this zone is ahead of UTC; negative would mean
    /// behind. The value depends on the variant and on nothing else.
    pub open spec fn offset_seconds(self) -> int {
        match self {
            TimeZone::UTC => 0,
            TimeZone::AsiaShanghai => 28_800,
        }
    }

    /// Get the offset of the time zone from UTC, in seconds.
    pub fn get_offset(&self) -> (offset: i32)
        ensures
            offset == self.offset_seconds(),
    {
        match self {
            TimeZone::UTC => 0,
            TimeZone::AsiaShanghai => 8 * 3600,
        }
    }

    /// Every zone lies at or east of UTC, less than a day away from it, and a
    /// whole number of hours away.
    ///
    /// The conversion in this module leans on all three facts: it shifts the
    /// hour only, it carries at most one day, and it never has to step back to
    /// a day before the epoch.
    pub proof fn lemma_offset_is_whole_hours_east(self)
        ensures
            0 <= self.offset_seconds() < 86_400,
            self.offset_seconds() % 3600 == 0,
    {
    }
}

impl Default for TimeZone {
    /// The default zone is UTC.
    fn default() -> (zone: Self)
        ensures
            zone == TimeZone::UTC,
    {
        TimeZone::UTC
    }
}

} // verus!
