//! Readings of the wall clock.
use vstd::prelude::*;

verus! {

/// No reading of the clock lies later than this many seconds behind the epoch.
pub const CLOCK_LIMIT: i64 = 200_000_000_000_000;

/// A day of the month and a time of day on the machine's own calendar.
#[derive(Clone, Copy, Debug, PartialEq, Eq)]
pub struct LocalTime {
    pub day: u32,
    pub hour: u32,
    pub minute: u32,
}

/// The parts lie in the ranges of a calendar and a clock.
pub open spec fn valid_time(t: LocalTime) -> bool {
    &&& 1 <= t.day <= 31
    &&& t.hour < 24
    &&& t.minute < 60
}

/// `chrono::Utc::now` and `DateTime::timestamp`: the seconds since the epoch. All
/// that is claimed is that they are not negative, and a bound: the day is counted in
/// 32 bits. Which second it is, only the machine's clock decides; where that stands
/// before the epoch, the call does not return.
#[verifier::external_body]
pub(crate) fn utc_timestamp() -> (r: i64)
    ensures
        0 <= r <= CLOCK_LIMIT,
{
    chrono::Utc::now().timestamp()
}

/// `chrono::Local::now`, with `Datelike::day`, `Timelike::hour` and
/// `Timelike::minute` of the one reading. Their documented ranges are claimed;
/// which time it is, the machine's clock and time zone decide, and as above whether
/// the call returns.
#[verifier::external_body]
pub(crate) fn local_time() -> (r: LocalTime)
    ensures
        valid_time(r),
{
    let t = chrono::Local::now();
    LocalTime {
        day: chrono::Datelike::day(&t),
        hour: chrono::Timelike::hour(&t),
        minute: chrono::Timelike::minute(&t),
    }
}

} // verus!
