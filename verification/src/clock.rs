//! Absolute timestamps and the trusted boundary to the `time` and
//! `calendar_duration` crates.
//!
//! A timestamp is a UTC instant held as nanoseconds since the Unix
//! epoch. The window `[TS_MIN_NANOS, TS_MAX_NANOS]` covers the years 1
//! through 9999, comfortably inside the range the outside crate can
//! represent, so every wrapped call below is panic-free on its stated
//! domain.

use vstd::prelude::*;

use crate::duration::EpochDuration;
use crate::result::Error;

verus! {

/// Nanoseconds of 0001-01-01T00:00:00Z.
pub const TS_MIN_NANOS: i128 = -62_135_596_800_000_000_000;

/// Nanoseconds of 9999-12-31T23:59:59Z.
pub const TS_MAX_NANOS: i128 = 253_402_300_799_000_000_000;

/// A UTC instant, as nanoseconds since the Unix epoch.
#[derive(Debug, Clone, Copy, PartialEq, Eq, Structural)]
pub struct Timestamp {
    pub nanos: i128,
}

/// The instant lies in the window this core works with.
pub open spec fn ts_in_range(nanos: int) -> bool {
    TS_MIN_NANOS <= nanos <= TS_MAX_NANOS
}

/// The instant a positive calendar duration addition yields: what
/// `OffsetDateTime + CalendarDuration` returns for the duration with
/// the given non-negative unit fields, in nanoseconds.
pub uninterp spec fn advanced_by(
    nanos: int,
    years: u16,
    months: u8,
    weeks: u32,
    days: u32,
    hours: u32,
    minutes: u32,
    seconds: u32,
) -> int;

/// `advanced_by` applied to a whole duration value.
pub open spec fn spec_advance(nanos: int, d: EpochDuration) -> int {
    advanced_by(nanos, d.years, d.months, d.weeks, d.days, d.hours, d.minutes, d.seconds)
}

/// The RFC 3339 rendering of an instant.
pub uninterp spec fn rfc3339_of(nanos: int) -> Seq<char>;

/// The instant an RFC 3339 string parses to, if it is well-formed.
pub uninterp spec fn rfc3339_parse_of(s: Seq<char>) -> Option<int>;

/// Relies on `time::OffsetDateTime::parse` with the RFC 3339 format:
/// accepts exactly the well-formed RFC 3339 instants. Note that the
/// grammar admits year 0000 and offsets up to twenty-four hours, so a
/// parsed instant can lie slightly outside this crate's working
/// window; callers re-check the window where it matters.
#[verifier::external_body]
pub fn parse_timestamp(stamp: &str) -> (r: Result<Timestamp, Error>)
    ensures
        match r {
            Ok(t) => rfc3339_parse_of(stamp@) == Some(t.nanos as int),
            Err(e) => rfc3339_parse_of(stamp@) is None && e == Error::Base64,
        },
{
    match time::OffsetDateTime::parse(stamp, &time::format_description::well_known::Rfc3339) {
        Ok(t) => Ok(Timestamp { nanos: t.unix_timestamp_nanos() }),
        Err(_) => Err(Error::Base64),
    }
}

/// Relies on `time::OffsetDateTime::format` with the RFC 3339 format:
/// formatting is a pure function of the instant, cannot fail for
/// instants in the window, and emits a well-formed RFC 3339 string
/// that parses back to the same instant.
#[verifier::external_body]
pub fn format_rfc3339(t: &Timestamp) -> (s: String)
    requires
        ts_in_range(t.nanos as int),
    ensures
        s@ == rfc3339_of(t.nanos as int),
        rfc3339_parse_of(s@) == Some(t.nanos as int),
{
    let date = time::OffsetDateTime::from_unix_timestamp_nanos(t.nanos)
        .expect("instant is inside the representable window");
    let s = date
        .format(&time::format_description::well_known::Rfc3339)
        .expect("well-known timestamp format should always succeed");
    s
}

/// Relies on `calendar_duration`'s `Add<CalendarDuration> for
/// OffsetDateTime`: adding a non-negative duration is deterministic,
/// never moves time backwards, moves it forward by at least one second
/// when the duration is non-zero, and by at most `spec_advance_bound`
/// nanoseconds (366 days per year, 31 days per month, exact for the
/// fixed-length units). Without year or month components the addition
/// is exactly the bound: the source adds plain second-counted
/// durations for weeks, days, hours, minutes and seconds.
#[verifier::external_body]
pub(crate) fn add_duration(t: &Timestamp, d: &EpochDuration) -> (r: Timestamp)
    requires
        !d.negative,
        ts_in_range(t.nanos as int),
        t.nanos + d.spec_advance_bound() <= TS_MAX_NANOS,
    ensures
        r.nanos as int == advanced_by(
            t.nanos as int,
            d.years,
            d.months,
            d.weeks,
            d.days,
            d.hours,
            d.minutes,
            d.seconds,
        ),
        t.nanos <= r.nanos,
        r.nanos <= t.nanos + d.spec_advance_bound(),
        !d.spec_is_zero() ==> t.nanos + 1_000_000_000 <= r.nanos,
        d.years == 0 && d.months == 0 ==> r.nanos == t.nanos + d.spec_advance_bound(),
{
    let date = time::OffsetDateTime::from_unix_timestamp_nanos(t.nanos)
        .expect("instant is inside the representable window");
    let cd = calendar_duration::CalendarDuration {
        negative: d.negative,
        years: d.years,
        months: d.months,
        weeks: d.weeks,
        days: d.days,
        hours: d.hours,
        minutes: d.minutes,
        seconds: d.seconds,
    };
    Timestamp { nanos: (date + cd).unix_timestamp_nanos() }
}

} // verus!
