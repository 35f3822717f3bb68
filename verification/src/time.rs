//! Simulated time: durations and instants measured in nanoseconds.

use vstd::prelude::*;

verus! {

/// A span of time, in nanoseconds.
#[derive(Clone, Copy, Debug, PartialEq, Eq, Structural, PartialOrd, Ord, Hash, Default)]
pub struct Duration {
    pub nanos: u64,
}

/// Nanoseconds in a microsecond.
pub const NANOS_PER_MICRO: u64 = 1_000;
/// Nanoseconds in a millisecond.
pub const NANOS_PER_MILLI: u64 = 1_000_000;
/// Nanoseconds in a second.
pub const NANOS_PER_SEC: u64 = 1_000_000_000;

impl Duration {
    /// The zero-length duration.
    pub fn zero() -> (d: Duration)
        ensures
            d.nanos == 0,
    {
        Duration { nanos: 0 }
    }

    /// A duration of `nanos` nanoseconds.
    pub fn from_nanos(nanos: u64) -> (d: Duration)
        ensures
            d.nanos == nanos,
    {
        Duration { nanos }
    }

    /// A duration of `micros` microseconds.
    pub fn from_micros(micros: u64) -> (d: Duration)
        requires
            micros * NANOS_PER_MICRO <= u64::MAX,
        ensures
            d.nanos == micros * NANOS_PER_MICRO,
    {
        Duration { nanos: micros * NANOS_PER_MICRO }
    }

    /// A duration of `millis` milliseconds.
    pub fn from_millis(millis: u64) -> (d: Duration)
        requires
            millis * NANOS_PER_MILLI <= u64::MAX,
        ensures
            d.nanos == millis * NANOS_PER_MILLI,
    {
        Duration { nanos: millis * NANOS_PER_MILLI }
    }

    /// A duration of `secs` seconds.
    pub fn from_secs(secs: u64) -> (d: Duration)
        requires
            secs * NANOS_PER_SEC <= u64::MAX,
        ensures
            d.nanos == secs * NANOS_PER_SEC,
    {
        Duration { nanos: secs * NANOS_PER_SEC }
    }

    /// The total number of nanoseconds.
    pub fn as_nanos(&self) -> (n: u64)
        ensures
            n == self.nanos,
    {
        self.nanos
    }

    /// `self + other`, or `None` where it does not fit.
    pub fn checked_add(&self, other: Duration) -> (r: Option<Duration>)
        ensures
            r == (if self.nanos + other.nanos <= u64::MAX {
                Some(Duration { nanos: (self.nanos + other.nanos) as u64 })
            } else {
                None::<Duration>
            }),
    {
        match self.nanos.checked_add(other.nanos) {
            Some(n) => Some(Duration { nanos: n }),
            None => None,
        }
    }

    /// `self * factor`, clamped to the largest duration.
    pub fn saturating_mul(&self, factor: u64) -> (r: Duration)
        ensures
            r.nanos == (if self.nanos * factor <= u64::MAX {
                self.nanos * factor
            } else {
                u64::MAX as int
            }),
    {
        match self.nanos.checked_mul(factor) {
            Some(n) => Duration { nanos: n },
            None => Duration { nanos: u64::MAX },
        }
    }
}

/// A point on the simulated monotonic clock: nanoseconds since its zero.
#[derive(Clone, Copy, Debug, PartialEq, Eq, Structural, PartialOrd, Ord, Hash, Default)]
pub struct Instant {
    pub nanos: u64,
}

impl Instant {
    /// The instant `nanos` nanoseconds after the clock's zero.
    pub fn from_nanos(nanos: u64) -> (t: Instant)
        ensures
            t.nanos == nanos,
    {
        Instant { nanos }
    }

    /// The amount of time elapsed from `earlier` to `self`.
    ///
    /// `earlier` must not be later than `self`.
    pub fn duration_since(&self, earlier: Instant) -> (d: Duration)
        requires
            earlier.nanos <= self.nanos,
        ensures
            d.nanos == self.nanos - earlier.nanos,
    {
        Duration { nanos: self.nanos - earlier.nanos }
    }

    /// The amount of time elapsed from `earlier` to `self`, or `None` if
    /// `earlier` is later than `self`.
    pub fn checked_duration_since(&self, earlier: Instant) -> (d: Option<Duration>)
        ensures
            d == (if earlier.nanos <= self.nanos {
                Some(Duration { nanos: (self.nanos - earlier.nanos) as u64 })
            } else {
                None::<Duration>
            }),
    {
        if earlier.nanos <= self.nanos {
            Some(Duration { nanos: self.nanos - earlier.nanos })
        } else {
            None
        }
    }

    /// The amount of time elapsed from `earlier` to `self`, or zero if
    /// `earlier` is later than `self`.
    pub fn saturating_duration_since(&self, earlier: Instant) -> (d: Duration)
        ensures
            d.nanos == (if earlier.nanos <= self.nanos { self.nanos - earlier.nanos } else { 0 }),
    {
        if earlier.nanos <= self.nanos {
            Duration { nanos: self.nanos - earlier.nanos }
        } else {
            Duration { nanos: 0 }
        }
    }

    /// The time elapsed from `self` until `now`, the clock's current reading.
    pub fn elapsed(&self, now: Instant) -> (d: Duration)
        requires
            self.nanos <= now.nanos,
        ensures
            d.nanos == now.nanos - self.nanos,
    {
        now.duration_since(*self)
    }

    /// `self + duration`, or `None` where the result is not representable.
    pub fn checked_add(&self, duration: Duration) -> (t: Option<Instant>)
        ensures
            t == (if self.nanos + duration.nanos <= u64::MAX {
                Some(Instant { nanos: (self.nanos + duration.nanos) as u64 })
            } else {
                None::<Instant>
            }),
    {
        match self.nanos.checked_add(duration.nanos) {
            Some(n) => Some(Instant { nanos: n }),
            None => None,
        }
    }

    /// `self - duration`, or `None` where the result would precede the zero.
    pub fn checked_sub(&self, duration: Duration) -> (t: Option<Instant>)
        ensures
            t == (if duration.nanos <= self.nanos {
                Some(Instant { nanos: (self.nanos - duration.nanos) as u64 })
            } else {
                None::<Instant>
            }),
    {
        if duration.nanos <= self.nanos {
            Some(Instant { nanos: self.nanos - duration.nanos })
        } else {
            None
        }
    }

    /// `self + duration`; the sum must not overflow.
    pub fn add(&self, duration: Duration) -> (t: Instant)
        requires
            self.nanos + duration.nanos <= u64::MAX,
        ensures
            t.nanos == self.nanos + duration.nanos,
    {
        Instant { nanos: self.nanos + duration.nanos }
    }

    /// `self - duration`; the difference must not go below zero.
    pub fn sub(&self, duration: Duration) -> (t: Instant)
        requires
            duration.nanos <= self.nanos,
        ensures
            t.nanos == self.nanos - duration.nanos,
    {
        Instant { nanos: self.nanos - duration.nanos }
    }
}

} // verus!
