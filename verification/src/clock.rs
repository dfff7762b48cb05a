//! The clocks: a monotonic one, read as nanoseconds since a starting
//! instant, for ages and time-to-live; the UTC calendar clock, read as
//! nanoseconds since the Unix epoch, and the text forms of such times.

use vstd::prelude::*;

verus! {

/// A point in time on the monotonic clock of `std`, carried through as it
/// is.
#[verifier::external_type_specification]
#[verifier::external_body]
pub struct ExInstant(std::time::Instant);

/// `Instant::now()`. Nothing is claimed of the value: it is the instant at
/// which the call was made.
#[verifier::external_body]
fn instant_now() -> std::time::Instant {
    std::time::Instant::now()
}

/// `Instant::elapsed`, in whole nanoseconds. Nothing is claimed of the
/// value: it is the time from `origin` to the instant of the call.
#[verifier::external_body]
fn nanos_since(origin: &std::time::Instant) -> u128 {
    origin.elapsed().as_nanos()
}

/// A monotonic clock that reads the nanoseconds passed since it was
/// started; the readings of one clock never go back.
#[derive(Debug, Clone, Copy)]
pub struct MonotonicClock {
    origin: std::time::Instant,
}

impl MonotonicClock {
    /// A clock started now.
    pub fn start() -> (r: Self) {
        MonotonicClock { origin: instant_now() }
    }

    /// The nanoseconds passed since the clock was started (`u64::MAX` once
    /// more than that has passed, after some 584 years).
    pub fn now_nanos(&self) -> u64 {
        let n = nanos_since(&self.origin);
        if n > u64::MAX as u128 {
            u64::MAX
        } else {
            n as u64
        }
    }
}

/// Nanoseconds in one second.
pub const NANOS_PER_SECOND: u64 = 1_000_000_000;

/// The time from `start` to `now` (zero when the clock went back).
pub open spec fn elapsed_nanos(start: u64, now: u64) -> nat {
    if now >= start {
        (now - start) as nat
    } else {
        0
    }
}

/// Whole seconds from `start` to `now` (zero when the clock went back).
pub fn elapsed_seconds(start: u64, now: u64) -> (r: u64)
    ensures
        r == elapsed_nanos(start, now) / NANOS_PER_SECOND as nat,
{
    if now >= start {
        (now - start) / NANOS_PER_SECOND
    } else {
        0
    }
}

/// `OffsetDateTime::now_utc().unix_timestamp_nanos()` of the `time`
/// crate: the calendar clock, as nanoseconds since the Unix epoch
/// (negative before it). Nothing is claimed of the value: it is the time
/// at which the call was made.
#[verifier::external_body]
pub(crate) fn utc_now_unix_nanos() -> i128 {
    time::OffsetDateTime::now_utc().unix_timestamp_nanos()
}

/// The calendar clock now, as nanoseconds since the Unix epoch (negative
/// before it); `None` for a time that `i64` nanoseconds cannot hold
/// (before the year 1677 or after 2262).
pub fn utc_now_nanos() -> (r: Option<i64>) {
    let n = utc_now_unix_nanos();
    if n < i64::MIN as i128 || n > i64::MAX as i128 {
        None
    } else {
        Some(n as i64)
    }
}

/// The RFC 3339 text of an instant given in nanoseconds since the epoch,
/// as chrono writes it.
pub uninterp spec fn rfc3339_text(nanos: i64) -> Seq<char>;

/// `DateTime::<Utc>::from_timestamp_nanos(nanos).to_rfc3339()`. The
/// contract names the result only: it is a function of `nanos` alone.
#[verifier::external_body]
pub(crate) fn format_rfc3339(nanos: i64) -> (r: String)
    ensures
        r@ == rfc3339_text(nanos),
{
    chrono::DateTime::from_timestamp_nanos(nanos).to_rfc3339()
}

/// The text of an instant in the form "March 05, 2024 at 14:30" (UTC), as
/// chrono writes it for the pattern `%B %d, %Y at %H:%M`.
pub uninterp spec fn long_date_time_text(nanos: i64) -> Seq<char>;

/// `DateTime::<Utc>::from_timestamp_nanos(nanos).format("%B %d, %Y at %H:%M")`
/// written out. The contract names the result only: it is a function of
/// `nanos` alone.
#[verifier::external_body]
pub(crate) fn format_long_date_time(nanos: i64) -> (r: String)
    ensures
        r@ == long_date_time_text(nanos),
{
    chrono::DateTime::from_timestamp_nanos(nanos).format("%B %d, %Y at %H:%M").to_string()
}

} // verus!
