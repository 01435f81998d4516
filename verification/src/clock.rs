//! The clocks that the library reads.

use vstd::prelude::*;

verus! {

/// One reading of the wall clock, in UTC.
pub struct UtcNow {
    /// Nanoseconds since the Unix epoch.
    pub unix_nanos: i128,
    /// The calendar year.
    pub year: i32,
    /// The month of the year, January being 1.
    pub month: u8,
    /// The day of the month.
    pub day: u8,
}

/// Reads the wall clock with `time::OffsetDateTime::now_utc` and takes the
/// reading apart with its accessors. Nothing is claimed of the values: they
/// are whatever the clock of the machine says. `now_utc` does not return
/// where the clock reads a date beyond the years that `time` holds.
#[verifier::external_body]
pub(crate) fn utc_now() -> (now: UtcNow) {
    let t = time::OffsetDateTime::now_utc();
    UtcNow {
        unix_nanos: t.unix_timestamp_nanos(),
        year: t.year(),
        month: u8::from(t.month()),
        day: t.day(),
    }
}

/// A point on the monotonic clock of std. Only the clock can tell two of
/// them apart, so the library carries such a value and never looks inside.
#[verifier::external_type_specification]
#[verifier::external_body]
pub struct ExInstant(std::time::Instant);

/// The current point on the monotonic clock, by `std::time::Instant::now`.
#[verifier::external_body]
pub(crate) fn mono_now() -> (now: std::time::Instant) {
    std::time::Instant::now()
}

/// The whole seconds that have passed since `since`, by
/// `std::time::Instant::elapsed`. Nothing is claimed of the value.
#[verifier::external_body]
pub(crate) fn elapsed_secs(since: &std::time::Instant) -> (secs: u64) {
    since.elapsed().as_secs()
}

/// Seconds since the Unix epoch by `std::time::SystemTime::now`; 0 where the
/// clock stands before the epoch. Nothing is claimed of the value.
#[verifier::external_body]
pub fn now_unix() -> (secs: i64) {
    std::time::SystemTime::now()
        .duration_since(std::time::UNIX_EPOCH)
        .unwrap_or_default()
        .as_secs() as i64
}

} // verus!
