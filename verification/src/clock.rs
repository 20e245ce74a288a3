//! The clocks that the session reads: a monotonic one for timeouts and the
//! wall clock for the times a session begins and ends.
use vstd::prelude::*;
use crate::session::Timestamp;

verus! {

/// `std::time::Instant`, carried through as an opaque value.
#[verifier::external_type_specification]
#[verifier::external_body]
pub struct ExInstant(std::time::Instant);

/// The current instant of the monotonic clock (`Instant::now`). Nothing is
/// claimed of it: it depends on when the call is made, and Verus sees an
/// `Instant` as opaque.
#[verifier::external_body]
fn instant_now() -> std::time::Instant {
    std::time::Instant::now()
}

/// Whole nanoseconds that have passed since `origin` on the monotonic clock
/// (`Instant::elapsed`, read as nanoseconds). Nothing is claimed of the
/// value: it depends on when the call is made.
#[verifier::external_body]
fn elapsed_nanos(origin: &std::time::Instant) -> u128 {
    origin.elapsed().as_nanos()
}

/// `std::time::SystemTime`, carried through as an opaque value.
#[verifier::external_type_specification]
#[verifier::external_body]
pub struct ExSystemTime(std::time::SystemTime);

/// The current instant of the system's wall clock (`SystemTime::now`).
/// Nothing is claimed of it: it depends on when the call is made, and Verus
/// sees a `SystemTime` as opaque.
#[verifier::external_body]
fn system_now() -> std::time::SystemTime {
    std::time::SystemTime::now()
}

/// How far `t` lies after the Unix epoch (`SystemTime::duration_since` of
/// `UNIX_EPOCH`), as whole seconds and the nanoseconds of the second that is
/// under way, which `Duration::subsec_nanos` keeps below one billion; `None`
/// when `t` lies before the epoch. The value itself is not claimed: Verus
/// sees a `SystemTime` as opaque.
#[verifier::external_body]
fn since_epoch(t: &std::time::SystemTime) -> (r: Option<(u64, u32)>)
    ensures
        r matches Some((_, nanos)) ==> nanos < 1_000_000_000,
{
    match t.duration_since(std::time::UNIX_EPOCH) {
        Ok(d) => Some((d.as_secs(), d.subsec_nanos())),
        Err(_) => None,
    }
}

/// Why a clock could not be read.
#[derive(Clone, Copy, Debug, PartialEq, Eq, Structural)]
pub enum ClockError {
    /// The wall clock reads a time before the Unix epoch, or one too far
    /// after it for a `Timestamp`.
    WallClockOutOfRange,
}

/// A count of nanoseconds as a `u64`, stopping at `u64::MAX`.
pub open spec fn capped_nanos(n: u128) -> u64 {
    if n > u64::MAX as u128 {
        u64::MAX
    } else {
        n as u64
    }
}

/// The wall-clock time that an offset from the Unix epoch (whole seconds and
/// nanoseconds) gives: the error when there is no offset (the clock reads a
/// time before the epoch) or its seconds do not fit an `i64`.
pub open spec fn epoch_offset_timestamp(offset: Option<(u64, u32)>) -> Result<Timestamp, ClockError> {
    match offset {
        Some((secs, nanos)) => if secs <= i64::MAX as u64 {
            Ok(Timestamp { secs: secs as i64, nanos })
        } else {
            Err(ClockError::WallClockOutOfRange)
        },
        None => Err(ClockError::WallClockOutOfRange),
    }
}

/// A count of nanoseconds as a `u64`, stopping at `u64::MAX`.
pub fn saturating_nanos(n: u128) -> (r: u64)
    ensures
        r == capped_nanos(n),
{
    if n > u64::MAX as u128 {
        u64::MAX
    } else {
        n as u64
    }
}

/// The wall-clock time that an offset from the Unix epoch gives, or the error
/// when there is none or it is too far for a `Timestamp`.
pub fn timestamp_from_epoch_offset(offset: Option<(u64, u32)>) -> (r: Result<Timestamp, ClockError>)
    ensures
        r == epoch_offset_timestamp(offset),
{
    match offset {
        Some((secs, nanos)) => {
            if secs <= i64::MAX as u64 {
                Ok(Timestamp { secs: secs as i64, nanos })
            } else {
                Err(ClockError::WallClockOutOfRange)
            }
        },
        None => Err(ClockError::WallClockOutOfRange),
    }
}

/// The clocks of a recording: the monotonic clock, counted from the moment
/// the recording was set up, and the wall clock.
pub struct Clock {
    origin: std::time::Instant,
}

impl Clock {
    /// A clock whose monotonic count starts now.
    pub fn start() -> Clock {
        Clock { origin: instant_now() }
    }

    /// Nanoseconds on the monotonic clock since the clock started, stopping at
    /// `u64::MAX` (some 584 years).
    pub fn monotonic_nanos(&self) -> (r: u64)
        ensures
            exists|elapsed: u128| r == capped_nanos(elapsed),
    {
        let n = elapsed_nanos(&self.origin);
        let r = saturating_nanos(n);
        assert(r == capped_nanos(n));
        r
    }

    /// The current wall-clock time, or an error when the system clock reads a
    /// time before the Unix epoch (or past what a `Timestamp` holds).
    pub fn wall_time(&self) -> (r: Result<Timestamp, ClockError>)
        ensures
            r matches Ok(t) ==> t.secs >= 0 && t.nanos < 1_000_000_000,
            exists|offset: Option<(u64, u32)>| r == epoch_offset_timestamp(offset),
    {
        let now = system_now();
        let offset = since_epoch(&now);
        let r = timestamp_from_epoch_offset(offset);
        assert(r == epoch_offset_timestamp(offset));
        r
    }
}

} // verus!
