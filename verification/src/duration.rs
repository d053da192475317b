//! Calendar-aware epoch durations.
//!
//! Mirrors the unit fields of `calendar_duration::CalendarDuration` as
//! plain integers so that schedule arithmetic can be reasoned about.
//! The actual calendar addition is performed by the outside crate
//! through a trusted wrapper in `clock`.

use vstd::prelude::*;

verus! {

/// One epoch duration, split into calendar units.
///
/// `negative` mirrors the sign flag of the outside representation;
/// the scheduler only ever works with non-negative durations.
#[derive(Debug, Clone, Copy, PartialEq, Eq, Structural)]
pub struct EpochDuration {
    pub negative: bool,
    pub years: u16,
    pub months: u8,
    pub weeks: u32,
    pub days: u32,
    pub hours: u32,
    pub minutes: u32,
    pub seconds: u32,
}

impl EpochDuration {
    /// All unit fields are zero (the sign flag does not matter).
    pub open spec fn spec_is_zero(&self) -> bool {
        self.years == 0 && self.months == 0 && self.weeks == 0 && self.days == 0 && self.hours
            == 0 && self.minutes == 0 && self.seconds == 0
    }

    /// A duration the scheduler accepts: non-negative and non-zero,
    /// so that adding it always moves a timestamp strictly forward.
    pub open spec fn spec_positive(&self) -> bool {
        !self.negative && !self.spec_is_zero()
    }

    /// Upper bound, in nanoseconds, on how far one calendar addition of
    /// this duration can move a timestamp forward: at most 366 days per
    /// year, 31 days per month, and the exact second counts of the
    /// fixed-length units.
    pub open spec fn spec_advance_bound(&self) -> int {
        (self.years * 31_622_400 + self.months * 2_678_400 + self.weeks * 604_800 + self.days
            * 86_400 + self.hours * 3_600 + self.minutes * 60 + self.seconds) * 1_000_000_000
    }

    /// Returns true if the duration is zero.
    pub fn is_zero(&self) -> (z: bool)
        ensures
            z == self.spec_is_zero(),
    {
        self.years == 0 && self.months == 0 && self.weeks == 0 && self.days == 0 && self.hours
            == 0 && self.minutes == 0 && self.seconds == 0
    }

    /// Returns true if the scheduler accepts this duration.
    pub fn is_positive(&self) -> (p: bool)
        ensures
            p == self.spec_positive(),
    {
        !self.negative && !self.is_zero()
    }

    /// Computes `spec_advance_bound` at runtime.
    pub fn advance_bound(&self) -> (b: i128)
        ensures
            b as int == self.spec_advance_bound(),
            b >= 0,
    {
        (self.years as i128 * 31_622_400 + self.months as i128 * 2_678_400 + self.weeks as i128
            * 604_800 + self.days as i128 * 86_400 + self.hours as i128 * 3_600
            + self.minutes as i128 * 60 + self.seconds as i128) * 1_000_000_000
    }
}

} // verus!
