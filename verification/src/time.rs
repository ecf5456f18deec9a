use vstd::prelude::*;

verus! {

/// A point in time, in nanoseconds since the Unix epoch.
pub type Instant = i128;

/// The unbounded period that starts at `start`.
#[derive(Copy, Clone, Debug, PartialEq, Eq, Hash, Structural)]
pub struct PeriodFrom {
    pub start: Instant,
}

/// The half-open period `[start, end)`.
#[derive(Copy, Clone, Debug, PartialEq, Eq, Hash, Structural)]
pub struct FinitePeriod {
    pub start: Instant,
    pub end: Instant,
}

/// Either an unbounded or a finite period.
#[derive(Copy, Clone, Debug, PartialEq, Eq, Hash, Structural)]
pub enum Period {
    From(PeriodFrom),
    Finite(FinitePeriod),
}

} // verus!

verus! {

/// Largest magnitude of a [`Duration`], in nanoseconds: `i64::MAX` milliseconds.
pub const MAX_DURATION_NANOS: i128 = 9_223_372_036_854_775_807_000_000i128;

/// Number of nanoseconds in a day.
pub const NANOS_PER_DAY: i128 = 86_400_000_000_000i128;

/// Largest number of whole days in a [`Duration`].
pub const MAX_DURATION_DAYS: i64 = 106_751_991_167i64;

/// A signed span of time, with nanosecond precision, whose magnitude is at most
/// `i64::MAX` milliseconds.
#[derive(Copy, Clone, Debug, PartialEq, Eq, Hash, Structural)]
pub struct Duration {
    nanos: i128,
}

/// The quotient of `a` by `b`, rounded toward zero.
pub open spec fn div_toward_zero(a: int, b: int) -> int {
    if a >= 0 {
        a / b
    } else {
        -((-a) / b)
    }
}

impl View for Duration {
    type V = int;

    /// The length of this span, in nanoseconds.
    closed spec fn view(&self) -> int {
        self.nanos as int
    }
}

impl Duration {
    #[verifier::type_invariant]
    spec fn within_bounds(self) -> bool {
        -MAX_DURATION_NANOS <= self.nanos <= MAX_DURATION_NANOS
    }

    pub fn zero() -> (r: Duration)
        ensures
            r@ == 0,
    {
        Duration { nanos: 0 }
    }

    pub fn max_value() -> (r: Duration)
        ensures
            r@ == MAX_DURATION_NANOS,
    {
        Duration { nanos: MAX_DURATION_NANOS }
    }

    pub fn min_value() -> (r: Duration)
        ensures
            r@ == -MAX_DURATION_NANOS,
    {
        Duration { nanos: -MAX_DURATION_NANOS }
    }

    pub fn nanoseconds(nanos: i64) -> (r: Duration)
        ensures
            r@ == nanos,
    {
        Duration { nanos: nanos as i128 }
    }

    pub fn microseconds(micros: i64) -> (r: Duration)
        ensures
            r@ == micros * 1000,
    {
        Duration { nanos: micros as i128 * 1000 }
    }

    pub fn milliseconds(millis: i64) -> (r: Duration)
        requires
            millis > i64::MIN,
        ensures
            r@ == millis * 1_000_000,
    {
        Duration { nanos: millis as i128 * 1_000_000 }
    }

    pub fn seconds(secs: i64) -> (r: Duration)
        requires
            -MAX_DURATION_NANOS <= secs * 1_000_000_000 <= MAX_DURATION_NANOS,
        ensures
            r@ == secs * 1_000_000_000,
    {
        Duration { nanos: secs as i128 * 1_000_000_000 }
    }

    pub fn days(days: i64) -> (r: Duration)
        requires
            -MAX_DURATION_DAYS <= days <= MAX_DURATION_DAYS,
        ensures
            r@ == days * NANOS_PER_DAY,
    {
        Duration { nanos: days as i128 * NANOS_PER_DAY }
    }

    /// The span of `secs` seconds and `nanos` nanoseconds, or `None` when it
    /// exceeds the largest span.
    pub fn from_std_parts(secs: u64, nanos: u32) -> (r: Option<Duration>)
        requires
            nanos < 1_000_000_000,
        ensures
            match r {
                Some(d) => secs * 1_000_000_000 + nanos <= MAX_DURATION_NANOS && d@ == secs
                    * 1_000_000_000 + nanos,
                None => secs * 1_000_000_000 + nanos > MAX_DURATION_NANOS,
            },
    {
        let total = secs as i128 * 1_000_000_000 + nanos as i128;
        if total > MAX_DURATION_NANOS {
            None
        } else {
            Some(Duration { nanos: total })
        }
    }

    /// The sum of both spans, or `None` when it is out of bounds.
    pub fn checked_add(&self, other: &Duration) -> (r: Option<Duration>)
        ensures
            match r {
                Some(d) => d@ == self@ + other@ && -MAX_DURATION_NANOS <= d@ <= MAX_DURATION_NANOS,
                None => !(-MAX_DURATION_NANOS <= self@ + other@ <= MAX_DURATION_NANOS),
            },
    {
        proof {
            use_type_invariant(self);
            use_type_invariant(other);
        }
        let sum = self.nanos + other.nanos;
        if -MAX_DURATION_NANOS <= sum && sum <= MAX_DURATION_NANOS {
            Some(Duration { nanos: sum })
        } else {
            None
        }
    }

    /// The difference of both spans, or `None` when it is out of bounds.
    pub fn checked_sub(&self, other: &Duration) -> (r: Option<Duration>)
        ensures
            match r {
                Some(d) => d@ == self@ - other@ && -MAX_DURATION_NANOS <= d@ <= MAX_DURATION_NANOS,
                None => !(-MAX_DURATION_NANOS <= self@ - other@ <= MAX_DURATION_NANOS),
            },
    {
        proof {
            use_type_invariant(self);
            use_type_invariant(other);
        }
        let diff = self.nanos - other.nanos;
        if -MAX_DURATION_NANOS <= diff && diff <= MAX_DURATION_NANOS {
            Some(Duration { nanos: diff })
        } else {
            None
        }
    }

    /// The number of whole days in this span, rounded toward zero.
    pub fn num_days(&self) -> (r: i64)
        ensures
            r == div_toward_zero(self@, NANOS_PER_DAY as int),
            -MAX_DURATION_DAYS <= r <= MAX_DURATION_DAYS,
    {
        proof {
            use_type_invariant(self);
        }
        let d = if self.nanos >= 0 {
            self.nanos / NANOS_PER_DAY
        } else {
            -((-self.nanos) / NANOS_PER_DAY)
        };
        d as i64
    }

    /// The length of this span in nanoseconds.
    pub fn total_nanoseconds(&self) -> (r: i128)
        ensures
            r == self@,
            -MAX_DURATION_NANOS <= r <= MAX_DURATION_NANOS,
    {
        proof {
            use_type_invariant(self);
        }
        self.nanos
    }

    /// The number of whole microseconds in this span (rounded toward zero), or
    /// `None` when it does not fit an `i64`.
    pub fn num_microseconds(&self) -> (r: Option<i64>)
        ensures
            match r {
                Some(m) => m == div_toward_zero(self@, 1000),
                None => !(i64::MIN <= div_toward_zero(self@, 1000) <= i64::MAX),
            },
    {
        proof {
            use_type_invariant(self);
        }
        let m = if self.nanos >= 0 {
            self.nanos / 1000
        } else {
            -((-self.nanos) / 1000)
        };
        if i64::MIN as i128 <= m && m <= i64::MAX as i128 {
            Some(m as i64)
        } else {
            None
        }
    }
}

} // verus!
