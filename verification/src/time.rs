//! Spans of time with nanosecond resolution, the unit of the public timeline.
use vstd::prelude::*;

verus! {

/// Nanoseconds in one second.
pub const NANOS_PER_SEC: u128 = 1_000_000_000;

/// The largest number of nanoseconds a [`Duration`] holds: `u64::MAX` seconds and
/// 999 999 999 nanoseconds.
pub const MAX_NANOS: u128 = 18_446_744_073_709_551_615_999_999_999;

/// The largest number of nanoseconds that fits a `u64`.
pub const U64_MAX_NANOS: u128 = 18_446_744_073_709_551_615;

/// A span of time, counted in whole nanoseconds.
///
/// It covers the same range as `std::time::Duration`: from zero up to `u64::MAX` seconds
/// plus 999 999 999 nanoseconds.
#[derive(Debug, Clone, Copy, PartialEq, Eq, Structural)]
pub struct Duration {
    nanos: u128,
}

impl Duration {
    /// Every duration lies within the representable range.
    #[verifier::type_invariant]
    pub closed spec fn in_range(self) -> bool {
        self.nanos <= MAX_NANOS
    }

    /// Two durations with the same number of nanoseconds are the same duration.
    pub proof fn lemma_view_injective(a: Duration, b: Duration)
        requires
            a@ == b@,
        ensures
            a == b,
    {
    }

    /// The empty duration.
    pub closed spec fn zero_spec() -> Duration {
        Duration { nanos: 0 }
    }

    /// The empty duration has no nanoseconds.
    pub proof fn lemma_zero()
        ensures
            Self::zero_spec()@ == 0,
    {
    }

    /// The empty duration.
    pub fn zero() -> (d: Duration)
        ensures
            d == Self::zero_spec(),
            d@ == 0,
    {
        Duration { nanos: 0 }
    }

    /// The longest duration.
    pub fn max_value() -> (d: Duration)
        ensures
            d@ == MAX_NANOS,
    {
        Duration { nanos: MAX_NANOS }
    }

    /// A duration of `nanos` nanoseconds.
    pub fn from_nanos(nanos: u64) -> (d: Duration)
        ensures
            d@ == nanos,
    {
        Duration { nanos: nanos as u128 }
    }

    /// A duration of `micros` microseconds.
    pub fn from_micros(micros: u64) -> (d: Duration)
        ensures
            d@ == micros * 1_000,
    {
        Duration { nanos: micros as u128 * 1_000 }
    }

    /// A duration of `millis` milliseconds.
    pub fn from_millis(millis: u64) -> (d: Duration)
        ensures
            d@ == millis * 1_000_000,
    {
        Duration { nanos: millis as u128 * 1_000_000 }
    }

    /// A duration of `secs` seconds.
    pub fn from_secs(secs: u64) -> (d: Duration)
        ensures
            d@ == secs * NANOS_PER_SEC,
    {
        Duration { nanos: secs as u128 * NANOS_PER_SEC }
    }

    /// The total number of nanoseconds in this duration.
    pub fn as_nanos(&self) -> (n: u128)
        ensures
            n == self@,
            n <= MAX_NANOS,
    {
        proof {
            use_type_invariant(self);
        }
        self.nanos
    }

    /// Whether this duration is empty.
    pub fn is_zero(&self) -> (b: bool)
        ensures
            b == (self@ == 0),
    {
        self.nanos == 0
    }

    /// The sum of two durations, or the longest duration where the sum does not fit.
    pub closed spec fn saturating_add_spec(self, other: Duration) -> Duration {
        if self.nanos + other.nanos > MAX_NANOS {
            Duration { nanos: MAX_NANOS }
        } else {
            Duration { nanos: (self.nanos + other.nanos) as u128 }
        }
    }

    /// The sum of two durations has the sum of their nanoseconds, or the most a duration holds.
    pub proof fn lemma_saturating_add(self, other: Duration)
        ensures
            self.saturating_add_spec(other)@ == if self@ + other@ > MAX_NANOS {
                MAX_NANOS as nat
            } else {
                self@ + other@
            },
    {
    }

    /// The sum of two durations, or the longest duration where the sum does not fit.
    pub fn saturating_add(self, other: Duration) -> (d: Duration)
        ensures
            d == self.saturating_add_spec(other),
            d@ == if self@ + other@ > MAX_NANOS { MAX_NANOS as nat } else { self@ + other@ },
    {
        proof {
            use_type_invariant(&self);
            use_type_invariant(&other);
        }
        if self.nanos > MAX_NANOS - other.nanos {
            Duration { nanos: MAX_NANOS }
        } else {
            Duration { nanos: self.nanos + other.nanos }
        }
    }

    /// Whether this duration is shorter than `other`.
    pub fn is_before(&self, other: &Duration) -> (b: bool)
        ensures
            b == (self@ < other@),
    {
        self.nanos < other.nanos
    }
}

impl View for Duration {
    type V = nat;

    closed spec fn view(&self) -> nat {
        self.nanos as nat
    }
}

/// The duration of `nanos` nanoseconds, clamped to the range from zero to `u64::MAX`
/// nanoseconds.
pub open spec fn clamp_nanos(nanos: int) -> nat {
    if nanos < 0 {
        0
    } else if nanos > U64_MAX_NANOS {
        U64_MAX_NANOS as nat
    } else {
        nanos as nat
    }
}

/// Returns the duration of `nanos` nanoseconds: zero for negative counts, and `u64::MAX`
/// nanoseconds where the count does not fit a `u64`.
pub fn duration_from_nanos(nanos: i128) -> (d: Duration)
    ensures
        d@ == clamp_nanos(nanos as int),
{
    if nanos < 0 {
        Duration::from_nanos(0)
    } else if nanos > U64_MAX_NANOS as i128 {
        Duration::from_nanos(18_446_744_073_709_551_615u64)
    } else {
        Duration::from_nanos(nanos as u64)
    }
}

/// Returns the number of nanoseconds in `duration` as a signed count.
pub fn nanos(duration: Duration) -> (n: i128)
    ensures
        n == duration@,
        0 <= n <= MAX_NANOS,
{
    duration.as_nanos() as i128
}

} // verus!
