//! The machine's clocks.

use vstd::prelude::*;
use chrono::{Datelike, Timelike};

verus! {

/// `std::time::SystemTime`, a reading of the system clock; it is only passed
/// on.
#[verifier::external_type_specification]
#[verifier::external_body]
pub struct ExSystemTime(std::time::SystemTime);

/// `std::time::SystemTimeError`, the error of a clock that stands before the
/// instant it is compared with; it is only passed on.
#[verifier::external_type_specification]
#[verifier::external_body]
pub struct ExSystemTimeError(std::time::SystemTimeError);

/// `SystemTime::now` reads the system clock. Nothing is claimed of the
/// reading: two of them may differ in either direction.
pub assume_specification[ std::time::SystemTime::now ]() -> (now: std::time::SystemTime);

/// `SystemTime::duration_since` gives the time from `earlier` to `time`, or an
/// error where `earlier` is the later of the two. Nothing is claimed of the
/// answer.
pub assume_specification[ std::time::SystemTime::duration_since ](
    time: &std::time::SystemTime,
    earlier: std::time::SystemTime,
) -> (elapsed: Result<std::time::Duration, std::time::SystemTimeError>);

/// `Duration::as_secs` gives the whole seconds of a duration. Nothing is
/// claimed of the number.
pub assume_specification[ std::time::Duration::as_secs ](duration: &std::time::Duration) -> (seconds: u64);

/// `Duration::subsec_nanos` gives the part of a duration below the whole
/// second, in nanoseconds: less than a billion.
pub assume_specification[ std::time::Duration::subsec_nanos ](duration: &std::time::Duration) -> (nanos: u32)
    ensures
        nanos < 1_000_000_000,
;

/// The instant that Unix time counts from, `std::time::UNIX_EPOCH`.
#[verifier::external_body]
fn unix_epoch() -> (epoch: std::time::SystemTime) {
    std::time::UNIX_EPOCH
}

/// Seconds since the Unix epoch by the system clock. The error, which the
/// clock gives when it stands before the epoch, is handed on as its text.
pub(crate) fn unix_seconds() -> (now: Result<u64, String>) {
    match std::time::SystemTime::now().duration_since(unix_epoch()) {
        Ok(elapsed) => Ok(elapsed.as_secs()),
        Err(err) => Err(err.to_string()),
    }
}

/// A reading of the local calendar clock.
#[derive(Debug, Clone, Copy, PartialEq, Eq, Structural)]
pub struct LocalTime {
    pub year: i32,
    pub month: u32,
    pub day: u32,
    pub hour: u32,
    pub minute: u32,
    pub second: u32,
    /// Nanoseconds since the whole second; a billion and more in a leap
    /// second.
    pub nanosecond: u32,
}

impl LocalTime {
    /// Every field lies in the range of its unit.
    pub open spec fn in_range(&self) -> bool {
        &&& 1 <= self.month <= 12
        &&& 1 <= self.day <= 31
        &&& self.hour <= 23
        &&& self.minute <= 59
        &&& self.second <= 59
        &&& self.nanosecond <= 1_999_999_999
    }
}

/// The local time of the instant `secs` seconds and `nanos` nanoseconds
/// after the Unix epoch: `chrono::DateTime::from_timestamp`, moved to the
/// machine's zone with `with_timezone(&chrono::Local)` and read through the
/// accessors of `Datelike` and `Timelike`. There is none where chrono cannot
/// hold the instant. Only the ranges that chrono documents for the
/// accessors are claimed; the zone is the machine's, so nothing else is.
#[verifier::external_body]
pub(crate) fn local_time_at(secs: i64, nanos: u32) -> (local: Option<LocalTime>)
    ensures
        local matches Some(t) ==> t.in_range(),
{
    let t = chrono::DateTime::from_timestamp(secs, nanos)?.with_timezone(&chrono::Local);
    Some(LocalTime {
        year: t.year(),
        month: t.month(),
        day: t.day(),
        hour: t.hour(),
        minute: t.minute(),
        second: t.second(),
        nanosecond: t.nanosecond(),
    })
}

/// The local time by the system clock. There is none where the clock stands
/// before the Unix epoch, or beyond what a calendar can hold.
pub(crate) fn local_now() -> (now: Option<LocalTime>)
    ensures
        now matches Some(t) ==> t.in_range(),
{
    match std::time::SystemTime::now().duration_since(unix_epoch()) {
        Ok(elapsed) => {
            let secs: u64 = elapsed.as_secs();
            if secs > i64::MAX as u64 {
                None
            } else {
                local_time_at(secs as i64, elapsed.subsec_nanos())
            }
        },
        Err(_) => None,
    }
}

} // verus!
