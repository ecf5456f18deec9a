use crate::time::{div_toward_zero, Duration, MAX_DURATION_DAYS, MAX_DURATION_NANOS, NANOS_PER_DAY};
use vstd::prelude::*;

verus! {

/// A PostgreSQL `INTERVAL`: months, days and microseconds, counted apart.
#[derive(Copy, Clone, Debug, PartialEq, Eq, Hash, Structural)]
pub struct PgInterval {
    pub months: i32,
    pub days: i32,
    pub microseconds: i64,
}

/// A span that does not fit the target representation.
#[derive(Copy, Clone, Debug, PartialEq, Eq, Hash, Structural)]
pub struct IntervalOverflowError;

/// A month counts as this many days.
pub const DAYS_IN_MONTH: i64 = 30;

/// The number of days that `iv` spans, a month counting as 30 days.
pub open spec fn interval_days(iv: PgInterval) -> int {
    iv.days + DAYS_IN_MONTH * iv.months
}

/// Number of microseconds in a day.
pub const MICROS_PER_DAY: i128 = 86_400_000_000i128;

/// The length of `iv`, in microseconds.
pub open spec fn interval_micros(iv: PgInterval) -> int {
    iv.microseconds + interval_days(iv) * MICROS_PER_DAY
}

/// The length of `iv`, in nanoseconds.
pub open spec fn interval_nanos(iv: PgInterval) -> int {
    interval_micros(iv) * 1000
}

/// `iv` converts to a [`Duration`]: its days and its length are within bounds.
pub open spec fn interval_fits(iv: PgInterval) -> bool {
    &&& -MAX_DURATION_DAYS <= interval_days(iv) <= MAX_DURATION_DAYS
    &&& -MAX_DURATION_NANOS <= interval_nanos(iv) <= MAX_DURATION_NANOS
}

/// The whole days of a span of `nanos` nanoseconds, rounded toward zero.
pub open spec fn whole_days(nanos: int) -> int {
    div_toward_zero(nanos, NANOS_PER_DAY as int)
}

/// The whole months of a span of `nanos` nanoseconds, rounded toward zero.
pub open spec fn whole_months(nanos: int) -> int {
    div_toward_zero(whole_days(nanos), DAYS_IN_MONTH as int)
}

/// A span of `nanos` nanoseconds converts to an interval: its whole months fit an `i32`.
pub open spec fn duration_fits(nanos: int) -> bool {
    i32::MIN <= whole_months(nanos) <= i32::MAX
}

/// The interval of a span of `nanos` nanoseconds: its whole months, the days
/// left over, and the whole microseconds left over (rounded toward zero).
pub open spec fn interval_of(nanos: int) -> PgInterval {
    PgInterval {
        months: whole_months(nanos) as i32,
        days: (whole_days(nanos) - DAYS_IN_MONTH * whole_months(nanos)) as i32,
        microseconds: div_toward_zero(nanos - whole_days(nanos) * NANOS_PER_DAY, 1000) as i64,
    }
}

/// Converts a PostgreSQL interval to a duration.
pub fn pg_interval_to_duration(interval: PgInterval) -> (r: Result<Duration, IntervalOverflowError>)
    ensures
        match r {
            Ok(d) => interval_fits(interval) && d@ == interval_nanos(interval),
            Err(_) => !interval_fits(interval),
        },
{
    let max_days = Duration::max_value().num_days();
    let min_days = Duration::min_value().num_days();
    let days = interval.days as i64 + DAYS_IN_MONTH * interval.months as i64;
    let days = if days >= min_days && days <= max_days {
        Some(Duration::days(days))
    } else {
        None
    };
    let duration = match days {
        Some(days) => Duration::microseconds(interval.microseconds).checked_add(&days),
        None => None,
    };
    match duration {
        Some(d) => Ok(d),
        None => Err(IntervalOverflowError),
    }
}

/// Converts a duration to a PostgreSQL interval.
pub fn duration_to_pg_interval(duration: Duration) -> (r: Result<PgInterval, IntervalOverflowError>)
    ensures
        match r {
            Ok(iv) => duration_fits(duration@) && iv == interval_of(duration@),
            Err(_) => !duration_fits(duration@),
        },
{
    let days = duration.num_days();
    let micros = match duration.checked_sub(&Duration::days(days)) {
        Some(rest) => rest.num_microseconds(),
        None => None,
    };
    let whole_months = if days >= 0 {
        days / DAYS_IN_MONTH
    } else {
        -((-days) / DAYS_IN_MONTH)
    };
    let months = if i32::MIN as i64 <= whole_months && whole_months <= i32::MAX as i64 {
        Ok(whole_months as i32)
    } else {
        Err(IntervalOverflowError)
    };
    let days = (days - whole_months * DAYS_IN_MONTH) as i32;
    match (micros, months) {
        (Some(microseconds), Ok(months)) => Ok(PgInterval { months, days, microseconds }),
        _ => Err(IntervalOverflowError),
    }
}

/// Converting a duration to an interval and back gives the same duration,
/// cut to whole microseconds (toward zero), which is all an interval holds.
pub proof fn law_interval_roundtrip(nanos: int)
    requires
        -MAX_DURATION_NANOS <= nanos <= MAX_DURATION_NANOS,
        duration_fits(nanos),
    ensures
        interval_fits(interval_of(nanos)),
        interval_nanos(interval_of(nanos)) == div_toward_zero(nanos, 1000) * 1000,
{
}


/// The parts of the interval of a duration carry its sign and are kept in
/// their ranges: fewer than thirty days besides the months, and less than a
/// day of microseconds besides the days.
pub proof fn law_interval_parts(nanos: int)
    requires
        -MAX_DURATION_NANOS <= nanos <= MAX_DURATION_NANOS,
        duration_fits(nanos),
    ensures
        ({
            let iv = interval_of(nanos);
            &&& -30 < iv.days < 30
            &&& -MICROS_PER_DAY < iv.microseconds < MICROS_PER_DAY
            &&& nanos >= 0 ==> iv.months >= 0 && iv.days >= 0 && iv.microseconds >= 0
            &&& nanos <= 0 ==> iv.months <= 0 && iv.days <= 0 && iv.microseconds <= 0
        }),
{
}

} // verus!
