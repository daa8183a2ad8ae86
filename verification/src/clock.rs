//! Access to the system clock.
use vstd::prelude::*;
use crate::time::Duration;

verus! {

/// The earliest microsecond timestamp the clock reports: earlier readings
/// are raised to it (it lies in the year -264 000 or so).
pub open spec fn earliest_micros() -> int {
    -8_400_000_000_000_000_000
}

#[verifier::external_type_specification]
#[verifier::external_body]
pub struct ExSystemTime(std::time::SystemTime);

/// A reading of the system clock.
///
/// Calls `std::time::SystemTime::now`. The reading depends on the machine,
/// so nothing is promised of it.
#[verifier::external_body]
fn system_time_now() -> std::time::SystemTime {
    std::time::SystemTime::now()
}

/// The span between the Unix epoch and `t`: `Ok` of it when `t` is not
/// earlier than the epoch, else `Err` of the span from `t` up to the epoch.
///
/// Calls `std::time::SystemTime::duration_since` with `UNIX_EPOCH` and
/// converts the span. It depends on the reading, so nothing is promised
/// of it.
#[verifier::external_body]
fn span_from_epoch(t: &std::time::SystemTime) -> Result<Duration, Duration> {
    match t.duration_since(std::time::UNIX_EPOCH) {
        Ok(d) => Ok(Duration::new(d.as_secs(), d.subsec_nanos())),
        Err(e) => Err(Duration::new(e.duration().as_secs(), e.duration().subsec_nanos())),
    }
}

/// The signed number of whole `unit`-nanosecond steps from the epoch to a
/// clock reading (`Ok` after the epoch, `Err` before it), kept within
/// `[low, high]`.
pub open spec fn steps_of(r: Result<Duration, Duration>, unit: nat, low: int, high: int) -> int
    recommends
        unit > 0,
{
    let t = match r {
        Ok(d) => (d@ / unit) as int,
        Err(d) => -((d@ / unit) as int),
    };
    if t < low {
        low
    } else if t > high {
        high
    } else {
        t
    }
}

/// A clock reading in microseconds since the Unix epoch, kept between
/// `earliest_micros()` and `i64::MAX`.
pub fn timestamp_micros(r: Result<Duration, Duration>) -> (t: i64)
    ensures
        t == steps_of(r, 1000, earliest_micros(), i64::MAX as int),
{
    let low: i128 = -8_400_000_000_000_000_000;
    let high: u128 = 9_223_372_036_854_775_807;
    match r {
        Ok(d) => {
            let n = d.as_nanos() / 1000;
            if n > high {
                i64::MAX
            } else {
                n as i64
            }
        },
        Err(d) => {
            let n = d.as_nanos() / 1000;
            if n > 8_400_000_000_000_000_000 {
                low as i64
            } else {
                -(n as i128) as i64
            }
        },
    }
}

/// A clock reading in milliseconds since the Unix epoch, kept within the
/// range of `i64`.
pub fn timestamp_millis(r: Result<Duration, Duration>) -> (t: i64)
    ensures
        t == steps_of(r, 1_000_000, i64::MIN as int, i64::MAX as int),
{
    let high: u128 = 9_223_372_036_854_775_807;
    match r {
        Ok(d) => {
            let n = d.as_nanos() / 1_000_000;
            if n > high {
                i64::MAX
            } else {
                n as i64
            }
        },
        Err(d) => {
            let n = d.as_nanos() / 1_000_000;
            if n > high + 1 {
                i64::MIN
            } else {
                -(n as i128) as i64
            }
        },
    }
}

/// The current time in microseconds since the Unix epoch (negative before
/// it), from the system clock.
pub fn now_micros() -> (t: i64)
    ensures
        t >= earliest_micros(),
{
    let now = system_time_now();
    timestamp_micros(span_from_epoch(&now))
}

/// The current time in milliseconds since the Unix epoch (negative before
/// it), from the system clock.
pub fn now_millis() -> i64 {
    let now = system_time_now();
    timestamp_millis(span_from_epoch(&now))
}

#[verifier::external_type_specification]
#[verifier::external_body]
pub struct ExInstant(std::time::Instant);

/// A reading of the monotonic clock.
///
/// Calls `std::time::Instant::now`. The reading depends on the machine, so
/// nothing is promised of it.
#[verifier::external_body]
pub fn instant_now() -> std::time::Instant {
    std::time::Instant::now()
}

/// The time passed since `start`.
///
/// Calls `std::time::Instant::elapsed` and converts the span. It depends on
/// the machine's clock, so nothing is promised of it.
#[verifier::external_body]
pub fn elapsed_since(start: &std::time::Instant) -> Duration {
    let d = start.elapsed();
    Duration::new(d.as_secs(), d.subsec_nanos())
}

} // verus!
