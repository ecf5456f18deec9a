use crate::time::Instant;
use vstd::prelude::*;
use vstd::std_specs::cmp::PartialEqSpec;

verus! {

/// The operations through which a [`super::Temporal`] stores its records.
pub trait SealedTemporalRecord: Sized {
    type Value;

    /// The value that this record carries.
    spec fn record_value(&self) -> Self::Value;

    /// The latest instant at which this record is known to hold, for a record
    /// whose period starts at `start`.
    spec fn latest(&self, start: Instant) -> Instant;

    /// Whether `other` carries the same value as `self`.
    spec fn same_value(&self, other: &Self) -> bool;

    /// What `self` becomes when `other`, which carries the same value, is merged into it.
    spec fn merged(&self, other: &Self) -> Self;

    /// Whether the executable comparison of values agrees with `same_value`.
    spec fn obeys_record_laws() -> bool;

    fn from_value_and_time(value: Self::Value, time: Instant) -> (r: Self)
        ensures
            r.record_value() == value,
            r.latest(time) == time,
    ;

    fn try_update(&mut self, other: Self) -> (r: Result<(), Self>)
        ensures
            Self::obeys_record_laws() ==> (r is Ok <==> old(self).same_value(&other)),
            r is Ok ==> *final(self) == old(self).merged(&other),
            r is Err ==> *final(self) == *old(self) && r == Err::<(), Self>(other),
    ;

    fn latest_time(&self, start_time: Instant) -> (r: Instant)
        ensures
            r == self.latest(start_time),
    ;
}

impl<T: Eq> SealedTemporalRecord for T {
    type Value = T;

    open spec fn record_value(&self) -> T {
        *self
    }

    open spec fn latest(&self, start: Instant) -> Instant {
        start
    }

    open spec fn same_value(&self, other: &Self) -> bool {
        self.eq_spec(other)
    }

    open spec fn merged(&self, other: &Self) -> Self {
        *self
    }

    open spec fn obeys_record_laws() -> bool {
        T::obeys_eq_spec()
    }

    fn from_value_and_time(value: T, _time: Instant) -> (r: T) {
        value
    }

    fn try_update(&mut self, other: T) -> (r: Result<(), T>) {
        if *self == other {
            Ok(())
        } else {
            Err(other)
        }
    }

    fn latest_time(&self, start_time: Instant) -> (r: Instant) {
        start_time
    }
}

} // verus!
