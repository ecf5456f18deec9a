use crate::time::{FinitePeriod, Instant, Period, PeriodFrom};
use vstd::prelude::*;
use vstd::std_specs::cmp::PartialEqSpec;
use vstd::laws_eq::obeys_concrete_eq;

mod private;

pub use private::SealedTemporalRecord;

verus! {

/// A record that a [`Temporal`] can hold.
pub trait TemporalRecord: Sized + SealedTemporalRecord {
    fn value(&self) -> (r: &Self::Value)
        ensures
            *r == self.record_value(),
    ;

    fn into_value(self) -> (r: Self::Value)
        ensures
            r == self.record_value(),
    ;
}

impl<T: Eq> TemporalRecord for T {
    fn value(&self) -> (r: &T) {
        self
    }

    fn into_value(self) -> (r: T) {
        self
    }
}

} // verus!

verus! {

/// The start instants of the history `h` strictly increase.
pub open spec fn starts_increasing<T>(h: Seq<(Instant, T)>) -> bool {
    forall|i: int, j: int| #![trigger h[i], h[j]] 0 <= i < j < h.len() ==> h[i].0 < h[j].0
}

/// Index of the entry of `h` that holds at `time`: the last entry that starts
/// at or before `time`, if any.
pub open spec fn active_index<T>(h: Seq<(Instant, T)>, time: Instant) -> Option<int>
    decreases h.len(),
{
    if h.len() == 0 {
        None
    } else if h.last().0 <= time {
        Some(h.len() - 1)
    } else {
        active_index(h.drop_last(), time)
    }
}

/// The period during which entry `i` of `h` holds: until the next entry starts,
/// or without end for the last one.
pub open spec fn period_of<T>(h: Seq<(Instant, T)>, i: int) -> Period {
    if i + 1 < h.len() {
        Period::Finite(FinitePeriod { start: h[i].0, end: h[i + 1].0 })
    } else {
        Period::From(PeriodFrom { start: h[i].0 })
    }
}

/// The history `h` once `value` is recorded at `time`: unchanged when the latest
/// entry already holds an equal value, extended with a new entry otherwise.
pub open spec fn after_set<T: PartialEq>(h: Seq<(Instant, T)>, time: Instant, value: T) -> Seq<
    (Instant, T),
> {
    if h.len() > 0 && h.last().1.eq_spec(&value) {
        h
    } else {
        h.push((time, value))
    }
}

/// The history obtained by recording the entries of `h` one after the other.
pub open spec fn compress<T: PartialEq>(h: Seq<(Instant, T)>) -> Seq<(Instant, T)>
    decreases h.len(),
{
    if h.len() == 0 {
        h
    } else {
        after_set(compress(h.drop_last()), h.last().0, h.last().1)
    }
}

/// The period that [`Temporal::iter`] gives to entry `i` of `h`: none for
/// the oldest entry, and for each later one a period that ends where the entry
/// before it starts.
pub open spec fn iter_period<T>(h: Seq<(Instant, T)>, i: int) -> Period {
    if i == 0 {
        Period::From(PeriodFrom { start: h[0].0 })
    } else {
        Period::Finite(FinitePeriod { start: h[i].0, end: h[i - 1].0 })
    }
}

/// Pairs the start instants of `h` with the values `vs`.
pub open spec fn with_values<T, B>(h: Seq<(Instant, T)>, vs: Seq<B>) -> Seq<(Instant, B)> {
    Seq::new(vs.len(), |i: int| (h[i].0, vs[i]))
}

/// No two consecutive entries of `h` hold equal values.
pub open spec fn no_repeats<T: PartialEq>(h: Seq<(Instant, T)>) -> bool {
    forall|i: int| 0 <= i < h.len() - 1 ==> !(#[trigger] h[i].1).eq_spec(&h[i + 1].1)
}

proof fn lemma_active_index<T>(h: Seq<(Instant, T)>, time: Instant)
    ensures
        match active_index(h, time) {
            None => forall|j: int| 0 <= j < h.len() ==> h[j].0 > time,
            Some(k) => {
                &&& 0 <= k < h.len()
                &&& h[k].0 <= time
                &&& forall|j: int| k < j < h.len() ==> h[j].0 > time
            },
        },
    decreases h.len(),
{
    if h.len() > 0 && h.last().0 > time {
        lemma_active_index(h.drop_last(), time);
        assert forall|j: int| 0 <= j < h.len() - 1 implies h[j] == h.drop_last()[j] by {}
    }
}

/// A snapshot of a value that has held since `start`, with no end yet.
#[derive(Copy, Clone, Debug, PartialEq, Eq, Hash)]
pub struct SnapshotFrom<T> {
    period: PeriodFrom,
    record: T,
}

impl<T> SnapshotFrom<T> {
    pub closed spec fn spec_period(&self) -> PeriodFrom {
        self.period
    }

    pub closed spec fn spec_record(&self) -> T {
        self.record
    }

    pub fn new(start: Instant, record: T) -> (r: Self)
        ensures
            r.spec_period() == (PeriodFrom { start }),
            r.spec_record() == record,
    {
        Self { period: PeriodFrom { start }, record }
    }

    pub fn period(&self) -> (r: PeriodFrom)
        ensures
            r == self.spec_period(),
    {
        self.period
    }

    pub fn start_time(&self) -> (r: Instant)
        ensures
            r == self.spec_period().start,
    {
        self.period.start
    }

    pub fn value(&self) -> (r: &T::Value) where T: TemporalRecord
        ensures
            *r == self.spec_record().record_value(),
    {
        self.record.value()
    }

    pub fn into_value(self) -> (r: T::Value) where T: TemporalRecord
        ensures
            r == self.spec_record().record_value(),
    {
        self.record.into_value()
    }

    pub fn record(&self) -> (r: &T)
        ensures
            *r == self.spec_record(),
    {
        &self.record
    }

    pub fn into_record(self) -> (r: T)
        ensures
            r == self.spec_record(),
    {
        self.record
    }
}

/// A snapshot of a value over a period, which may have ended.
#[derive(Copy, Clone, Debug, PartialEq, Eq, Hash)]
pub struct Snapshot<T> {
    period: Period,
    record: T,
}

impl<T> Snapshot<T> {
    /// The snapshot of `record` over `period`.
    pub closed spec fn spec_new(period: Period, record: T) -> Snapshot<T> {
        Snapshot { period, record }
    }

    pub broadcast proof fn lemma_spec_new(period: Period, record: T)
        ensures
            #[trigger] Snapshot::spec_new(period, record).spec_period() == period,
            Snapshot::spec_new(period, record).spec_record() == record,
    {
    }

    pub closed spec fn spec_period(&self) -> Period {
        self.period
    }

    pub closed spec fn spec_record(&self) -> T {
        self.record
    }

    pub fn period(&self) -> (r: Period)
        ensures
            r == self.spec_period(),
    {
        self.period
    }

    pub fn start_time(&self) -> (r: Instant)
        ensures
            r == match self.spec_period() {
                Period::From(p) => p.start,
                Period::Finite(p) => p.start,
            },
    {
        match self.period {
            Period::From(PeriodFrom { start }) => start,
            Period::Finite(FinitePeriod { start, .. }) => start,
        }
    }

    pub fn end_time(&self) -> (r: Option<Instant>)
        ensures
            r == match self.spec_period() {
                Period::From(_) => None,
                Period::Finite(p) => Some(p.end),
            },
    {
        match self.period {
            Period::From(_) => None,
            Period::Finite(FinitePeriod { end, .. }) => Some(end),
        }
    }

    pub fn value(&self) -> (r: &T::Value) where T: TemporalRecord
        ensures
            *r == self.spec_record().record_value(),
    {
        self.record.value()
    }

    pub fn into_value(self) -> (r: T::Value) where T: TemporalRecord
        ensures
            r == self.spec_record().record_value(),
    {
        self.record.into_value()
    }

    pub fn record(&self) -> (r: &T)
        ensures
            *r == self.spec_record(),
    {
        &self.record
    }

    pub fn into_record(self) -> (r: T)
        ensures
            r == self.spec_record(),
    {
        self.record
    }
}

} // verus!

verus! {

/// A value that changes over time, with the history of its past values.
///
/// The history is a sequence of entries `(start, record)` whose starts strictly
/// increase; each entry holds from its start until the next one starts, and the
/// last one (the current value) holds from its start on.
pub struct Temporal<T> {
    current: SnapshotFrom<T>,
    // Past entries, in increasing order of start; all start before `current`.
    old: Vec<(Instant, T)>,
}

impl<T> Temporal<T> {
    /// The entries of this value, oldest first; the last one is the current value.
    pub closed spec fn history(&self) -> Seq<(Instant, T)> {
        self.old@.push((self.current.period.start, self.current.record))
    }

    /// The history is well formed: it holds at least one entry (the current
    /// value), and its starts strictly increase.
    pub open spec fn wf(&self) -> bool {
        &&& self.history().len() > 0
        &&& starts_increasing(self.history())
    }

    pub fn new(time: Instant, record: T) -> (r: Self)
        ensures
            r.history() == seq![(time, record)],
            r.wf(),
    {
        let r = Self { current: SnapshotFrom::new(time, record), old: Vec::new() };
        assert(r.history() =~= seq![(time, record)]);
        r
    }

    /// The snapshot that holds at `time` (at the start of the current value when
    /// `time` is `None`), or `None` when `time` is before the first entry.
    pub fn at(&self, time: Option<Instant>) -> (r: Option<SnapshotFrom<&T>>)
        requires
            self.wf(),
        ensures
            ({
                let h = self.history();
                let t = match time {
                    Some(t) => t,
                    None => h.last().0,
                };
                match active_index(h, t) {
                    None => r is None,
                    Some(i) => r matches Some(s) && s.spec_period() == (PeriodFrom {
                        start: h[i].0,
                    }) && *s.spec_record() == h[i].1,
                }
            }),
    {
        let ghost h = self.history();
        let t = match time {
            Some(t) => t,
            None => self.current.period.start,
        };
        proof {
            lemma_active_index(h, t);
        }
        if t >= self.current.start_time() {
            return Some(SnapshotFrom::new(self.current.start_time(), &self.current.record));
        }
        let mut i = self.old.len();
        while i > 0
            invariant
                i <= self.old.len(),
                h == self.history(),
                starts_increasing(h),
                t < self.current.period.start,
                forall|j: int| i <= j < self.old.len() ==> self.old@[j].0 > t,
                t == match time {
                    Some(t) => t,
                    None => h.last().0,
                },
            decreases i,
        {
            if self.old[i - 1].0 <= t {
                let e = &self.old[i - 1];
                proof {
                    let k = i - 1;
                    lemma_active_index(h, t);
                    assert(h[k] == self.old@[k]);
                    assert forall|j: int| k < j < h.len() implies h[j].0 > t by {
                        if j < self.old.len() {
                            assert(h[j] == self.old@[j]);
                        }
                    }
                    match active_index(h, t) {
                        Some(k2) => {
                            if k2 < k {
                                assert(h[k].0 > t);
                            } else if k2 > k {
                                assert(h[k2].0 > t);
                            }
                        },
                        None => {
                            assert(h[k].0 > t);
                        },
                    }
                }
                return Some(SnapshotFrom::new(e.0, &e.1));
            }
            i = i - 1;
        }
        proof {
            lemma_active_index(h, t);
            match active_index(h, t) {
                Some(k2) => {
                    if k2 < self.old.len() {
                        assert(h[k2] == self.old@[k2]);
                    }
                },
                None => {},
            }
        }
        None
    }

    /// The start of the current value.
    pub fn time(&self) -> (r: Instant)
        ensures
            r == self.history().last().0,
    {
        self.current.start_time()
    }

    /// The snapshots of this value, oldest first, each over the period during
    /// which it holds.
    fn snapshots(&self) -> (r: Vec<Snapshot<&T>>)
        requires
            self.wf(),
        ensures
            r.len() == self.history().len(),
            forall|i: int|
                0 <= i < r.len() ==> (#[trigger] r@[i]).spec_period() == period_of(
                    self.history(),
                    i,
                ) && *r@[i].spec_record() == self.history()[i].1,
            forall|i: int|
                0 <= i < r.len() - 1 ==> (#[trigger] r@[i]).spec_period() == Period::Finite(
                    FinitePeriod { start: self.history()[i].0, end: self.history()[i + 1].0 },
                ),
            r@[r.len() - 1].spec_period() == Period::From(
                PeriodFrom { start: self.history()[r.len() - 1].0 },
            ),
    {
        let ghost h = self.history();
        let mut r: Vec<Snapshot<&T>> = Vec::new();
        let n = self.old.len();
        let mut i: usize = 0;
        while i < n
            invariant
                n == self.old.len(),
                h == self.history(),
                i <= n,
                r.len() == i,
                forall|j: int|
                    0 <= j < i ==> (#[trigger] r@[j]).spec_period() == period_of(h, j)
                        && *r@[j].spec_record() == h[j].1,
            decreases n - i,
        {
            let end = if i + 1 < n {
                self.old[i + 1].0
            } else {
                self.current.period.start
            };
            let e = &self.old[i];
            proof {
                assert(h[i as int] == self.old@[i as int]);
                if i + 1 < n {
                    assert(h[i + 1] == self.old@[i + 1]);
                }
            }
            r.push(Snapshot { period: Period::Finite(FinitePeriod { start: e.0, end }), record: &e.1 });
            i = i + 1;
        }
        r.push(
            Snapshot {
                period: Period::From(PeriodFrom { start: self.current.period.start }),
                record: &self.current.record,
            },
        );
        r
    }
}

impl<T> Temporal<T> {
    /// All the snapshots of this value, oldest first. The period of each is
    /// computed in that same order from the start seen just before it: the
    /// oldest has no end, and each later one ends where the one before it
    /// starts.
    pub fn iter(&self) -> (r: Vec<Snapshot<&T>>)
        requires
            self.wf(),
        ensures
            r.len() == self.history().len(),
            forall|i: int|
                0 <= i < r.len() ==> (#[trigger] r@[i]).spec_period() == iter_period(
                    self.history(),
                    i,
                ) && *r@[i].spec_record() == self.history()[i].1,
        r@[0].spec_period() == Period::From(PeriodFrom { start: self.history()[0].0 }),
            forall|i: int|
                0 < i < r.len() ==> (#[trigger] r@[i]).spec_period() == Period::Finite(
                    FinitePeriod { start: self.history()[i].0, end: self.history()[i - 1].0 },
                ),
    {
        let ghost h = self.history();
        let mut r: Vec<Snapshot<&T>> = Vec::new();
        let n = self.old.len();
        let mut previous: Option<Instant> = None;
        let mut i: usize = 0;
        while i < n
            invariant
                n == self.old.len(),
                h == self.history(),
                i <= n,
                r.len() == i,
                previous == (if i == 0 { None } else { Some(h[i - 1].0) }),
                forall|j: int|
                    0 <= j < i ==> (#[trigger] r@[j]).spec_period() == iter_period(h, j)
                        && *r@[j].spec_record() == h[j].1,
            decreases n - i,
        {
            let e = &self.old[i];
            proof {
                assert(h[i as int] == self.old@[i as int]);
            }
            let period = match previous {
                Some(end) => Period::Finite(FinitePeriod { start: e.0, end }),
                None => Period::From(PeriodFrom { start: e.0 }),
            };
            r.push(Snapshot { period, record: &e.1 });
            previous = Some(e.0);
            i = i + 1;
        }
        let start = self.current.period.start;
        let period = match previous {
            Some(end) => Period::Finite(FinitePeriod { start, end }),
            None => Period::From(PeriodFrom { start }),
        };
        r.push(Snapshot { period, record: &self.current.record });
        r
    }
}

impl<T> Temporal<T> {
    /// Applies `f` to each snapshot of this value, oldest first, and builds the
    /// value whose entries are the results, starting when the snapshots start;
    /// a result equal to the one before it extends the entry of that one.
    pub fn map<B: Eq, F: Fn(Snapshot<&T>) -> B>(&self, f: F) -> (r: Temporal<B>)
        requires
            self.wf(),
            forall|s: Snapshot<&T>| call_requires(f, (s,)),
        ensures
            r.wf(),
            exists|bs: Seq<B>|
                #![trigger with_values(self.history(), bs)]
                {
                    &&& bs.len() == self.history().len()
                    &&& forall|i: int|
                        #![trigger bs[i]]
                        0 <= i < bs.len() ==> call_ensures(
                            f,
                            (Snapshot::spec_new(period_of(self.history(), i), &self.history()[i].1),),
                            bs[i],
                        )
                    &&& B::obeys_eq_spec() ==> r.history() == compress(
                        with_values(self.history(), bs),
                    )
                },
    {
        let ghost h = self.history();
        let snapshots = self.snapshots();
        let n = snapshots.len();
        let first = f(snapshots[0]);
        let mut mapped = Temporal::new(snapshots[0].start_time(), first);
        let ghost mut bs: Seq<B> = seq![first];
        proof {
            assert(with_values(h, bs).drop_last() =~= Seq::<(Instant, B)>::empty());
            assert(compress(Seq::<(Instant, B)>::empty()) == Seq::<(Instant, B)>::empty());
            assert(mapped.history() =~= Seq::<(Instant, B)>::empty().push((h[0].0, first)));
        }
        let mut i: usize = 1;
        while i < n
            invariant
                h == self.history(),
                starts_increasing(h),
                n == h.len(),
                snapshots.len() == n,
                forall|j: int|
                    0 <= j < n ==> (#[trigger] snapshots@[j]).spec_period() == period_of(h, j)
                        && *snapshots@[j].spec_record() == h[j].1,
                forall|s: Snapshot<&T>| call_requires(f, (s,)),
                1 <= i <= n,
                bs.len() == i,
                forall|j: int| 0 <= j < i ==> call_ensures(f, (snapshots@[j],), #[trigger] bs[j]),
                mapped.wf(),
                mapped.history().last().0 <= h[i - 1].0,
                B::obeys_eq_spec() ==> mapped.history() == compress(with_values(h, bs)),
            decreases n - i,
        {
            let s = snapshots[i];
            let start = s.start_time();
            let b = f(s);
            proof {
                assert(start == h[i as int].0);
                assert(h[i - 1].0 < h[i as int].0);
            }
            let ghost before = mapped.history();
            mapped.set_record(start, b);
            proof {
                let bs2 = bs.push(b);
                assert(with_values(h, bs2).drop_last() =~= with_values(h, bs));
                assert(with_values(h, bs2).last() == (start, b));
                bs = bs2;
            }
            i = i + 1;
        }
        proof {
            assert forall|j: int| #![trigger bs[j]] 0 <= j < bs.len() implies call_ensures(
                f,
                (Snapshot::spec_new(period_of(h, j), &h[j].1),),
                bs[j],
            ) by {
                assert(snapshots@[j] == Snapshot::spec_new(period_of(h, j), &h[j].1));
            }
            assert(bs.len() == h.len());
            assert(B::obeys_eq_spec() ==> mapped.history() == compress(with_values(h, bs)));
            let w = with_values(h, bs);
        }
        mapped
    }
}

impl<T: Eq> Temporal<T> {
    /// The current value.
    pub fn value(&self) -> (r: &T)
        ensures
            *r == self.history().last().1,
    {
        self.current.value()
    }

    /// The current value.
    pub fn into_value(self) -> (r: T)
        ensures
            r == self.history().last().1,
    {
        self.current.into_value()
    }

    /// Records `value` as holding from `time` on.
    pub fn set(&mut self, time: Instant, value: T)
        requires
            old(self).wf(),
            time > old(self).history().last().0,
        ensures
            final(self).wf(),
            T::obeys_eq_spec() ==> final(self).history() == after_set(
                old(self).history(),
                time,
                value,
            ),
            final(self).history() == old(self).history() || final(self).history() == old(
                self,
            ).history().push((time, value)),
    {
        let record = T::from_value_and_time(value, time);
        self.set_record(time, record);
    }

    fn set_record(&mut self, time: Instant, record: T)
        requires
            old(self).wf(),
            time > old(self).history().last().0,
        ensures
            final(self).wf(),
            T::obeys_eq_spec() ==> final(self).history() == after_set(
                old(self).history(),
                time,
                record,
            ),
            final(self).history() == old(self).history() || final(self).history() == old(
                self,
            ).history().push((time, record)),
    {
        let ghost h = self.history();
        let new_time = record.latest_time(time);
        let old_time = self.current.record.latest_time(self.current.period.start);
        assert(new_time > old_time);
        match self.current.record.try_update(record) {
            Ok(()) => {
                assert(self.history() =~= h);
            },
            Err(record) => {
                let mut prev = SnapshotFrom { period: PeriodFrom { start: time }, record };
                std::mem::swap(&mut self.current, &mut prev);
                self.old.push((prev.period.start, prev.record));
                assert(self.history() =~= h.push((time, record)));
            },
        }
    }

    /// Builds a value from its entries.
    ///
    /// Each further entry must end after the previous one: as a record's latest
    /// instant is its own start, no further entry passes that check, so
    /// `values` holds exactly one entry.
    pub fn from_values(values: Vec<(Instant, T)>) -> (r: Self)
        requires
            values.len() == 1,
        ensures
            r.history() == values@,
            r.wf(),
    {
        let mut values = values;
        let cur = values.remove(0);
        let r = Temporal { current: SnapshotFrom::new(cur.0, cur.1), old: Vec::new() };
        assert(r.history() =~= seq![cur]);
        r
    }
}

} // verus!

verus! {

/// Reading the current value after recording `value` gives `value` back.
pub proof fn law_set_then_value<T: Eq>(h: Seq<(Instant, T)>, time: Instant, value: T)
    requires
        obeys_concrete_eq::<T>(),
    ensures
        after_set(h, time, value).last().1 == value,
{
    reveal(obeys_concrete_eq);
}

/// After recording `value` at `time`, the value that holds at any instant from
/// `time` on is `value`.
pub proof fn law_set_then_at<T: Eq>(h: Seq<(Instant, T)>, time: Instant, value: T, t: Instant)
    requires
        obeys_concrete_eq::<T>(),
        starts_increasing(h),
        h.len() > 0,
        time > h.last().0,
        t >= time,
    ensures
        ({
            let h2 = after_set(h, time, value);
            active_index(h2, t) == Some(h2.len() - 1) && h2[h2.len() - 1].1 == value
        }),
{
    reveal(obeys_concrete_eq);
}

/// Recording a value at `time` leaves unchanged what held at every instant
/// before `time`.
pub proof fn law_set_keeps_past<T: Eq>(h: Seq<(Instant, T)>, time: Instant, value: T, t: Instant)
    requires
        starts_increasing(h),
        h.len() > 0,
        time > h.last().0,
        t < time,
    ensures
        ({
            let h2 = after_set(h, time, value);
            &&& active_index(h2, t) == active_index(h, t)
            &&& forall|i: int| 0 <= i < h.len() ==> h2[i] == h[i]
        }),
{
    let h2 = after_set(h, time, value);
    if h2.len() != h.len() {
        assert(h2.drop_last() =~= h);
    }
}

/// Recording a value moves the start of the current value forward to `time`
/// when the value changes, and leaves it when the value is the current one.
pub proof fn law_set_time<T: Eq>(h: Seq<(Instant, T)>, time: Instant, value: T)
    requires
        obeys_concrete_eq::<T>(),
        h.len() > 0,
        time > h.last().0,
    ensures
        ({
            let h2 = after_set(h, time, value);
            &&& h2.last().0 >= h.last().0
            &&& h.last().1 == value ==> h2.last().0 == h.last().0
            &&& h.last().1 != value ==> h2.last().0 == time
        }),
{
    reveal(obeys_concrete_eq);
}

/// Recording the current value again changes nothing.
pub proof fn law_set_idempotent<T: Eq>(
    h: Seq<(Instant, T)>,
    time: Instant,
    value: T,
    later: Instant,
)
    requires
        obeys_concrete_eq::<T>(),
    ensures
        after_set(after_set(h, time, value), later, value) == after_set(h, time, value),
{
    reveal(obeys_concrete_eq);
}

/// Recording a value keeps the starts increasing when it is recorded after the
/// current value started.
pub proof fn law_set_keeps_order<T: Eq>(h: Seq<(Instant, T)>, time: Instant, value: T)
    requires
        starts_increasing(h),
        h.len() > 0,
        time > h.last().0,
    ensures
        starts_increasing(after_set(h, time, value)),
{
}

/// Recording a value never makes two consecutive entries hold equal values.
pub proof fn law_set_keeps_no_repeats<T: Eq>(h: Seq<(Instant, T)>, time: Instant, value: T)
    requires
        no_repeats(h),
    ensures
        no_repeats(after_set(h, time, value)),
{
    let h2 = after_set(h, time, value);
    assert forall|i: int| 0 <= i < h2.len() - 1 implies !(#[trigger] h2[i]).1.eq_spec(
        &h2[i + 1].1,
    ) by {
        if h2.len() != h.len() && i == h.len() - 1 {
        } else {
            assert(h2[i] == h[i]);
            assert(h2[i + 1] == h[i + 1]);
        }
    }
}

/// Recording the entries of a history without repeated values, one after the
/// other, rebuilds that same history.
pub proof fn law_compress_no_repeats<T: Eq>(h: Seq<(Instant, T)>)
    requires
        no_repeats(h),
    ensures
        compress(h) == h,
    decreases h.len(),
{
    if h.len() > 0 {
        let p = h.drop_last();
        assert forall|i: int| 0 <= i < p.len() - 1 implies !(#[trigger] p[i]).1.eq_spec(
            &p[i + 1].1,
        ) by {
            assert(p[i] == h[i]);
            assert(p[i + 1] == h[i + 1]);
        }
        law_compress_no_repeats(p);
        if p.len() > 0 {
            assert(p.last() == h[h.len() - 2]);
        }
        assert(p.push(h.last()) =~= h);
    }
}

/// Nothing holds before the first entry; from its start on, some entry holds.
pub proof fn law_at_before_first<T>(h: Seq<(Instant, T)>, t: Instant)
    requires
        starts_increasing(h),
        h.len() > 0,
    ensures
        active_index(h, t) is None <==> t < h[0].0,
{
    lemma_active_index(h, t);
    if t >= h[0].0 {
        assert(h[0].0 <= t);
    }
}

proof fn lemma_active_index_push<T>(h: Seq<(Instant, T)>, e: (Instant, T), x: Instant)
    ensures
        active_index(h.push(e), x) == if e.0 <= x {
            Some(h.len() as int)
        } else {
            active_index(h, x)
        },
{
    assert(h.push(e).drop_last() =~= h);
}

proof fn lemma_compress<B: Eq>(w: Seq<(Instant, B)>, x: Instant)
    requires
        obeys_concrete_eq::<B>(),
        starts_increasing(w),
        w.len() > 0,
    ensures
        ({
            let g = compress(w);
            &&& g.len() > 0
            &&& g[0] == w[0]
            &&& g.last().0 <= w.last().0
            &&& g.last().1 == w.last().1
            &&& starts_increasing(g)
            &&& (active_index(g, x) is None <==> active_index(w, x) is None)
            &&& active_index(w, x) matches Some(i) ==> (active_index(g, x) matches Some(k) && 0 <= k
                < g.len() && g[k].1 == w[i].1)
        }),
    decreases w.len(),
{
    reveal(obeys_concrete_eq);
    let p = w.drop_last();
    let e = w.last();
    assert(w =~= p.push(e));
    lemma_active_index_push(p, e, x);
    if p.len() == 0 {
        assert(compress(p) =~= Seq::<(Instant, B)>::empty());
        assert(compress(w) =~= seq![e]);
        lemma_active_index_push(Seq::<(Instant, B)>::empty(), e, x);
    } else {
        assert(starts_increasing(p)) by {
            assert forall|i: int, j: int| #![trigger p[i], p[j]] 0 <= i < j < p.len() implies p[i].0
                < p[j].0 by {
                assert(p[i] == w[i] && p[j] == w[j]);
            }
        }
        lemma_compress(p, x);
        let gp = compress(p);
        assert(p.last() == w[w.len() - 2]);
        assert(gp.last().0 < e.0);
        lemma_active_index(gp, x);
        lemma_active_index(p, x);
        if gp.last().1.eq_spec(&e.1) {
            assert(compress(w) == gp);
            if e.0 <= x {
                assert(gp.last().0 <= x);
                assert(gp == gp.drop_last().push(gp.last()));
                lemma_active_index_push(gp.drop_last(), gp.last(), x);
            }
        } else {
            assert(compress(w) == gp.push(e));
            lemma_active_index_push(gp, e, x);
            let g = gp.push(e);
            assert forall|i: int, j: int| #![trigger g[i], g[j]] 0 <= i < j < g.len() implies g[i].0
                < g[j].0 by {
                if j == g.len() - 1 && i < gp.len() {
                    assert(g[i] == gp[i]);
                    if i < gp.len() - 1 {
                        assert(gp[i].0 < gp[gp.len() - 1].0);
                    }
                } else if j < gp.len() {
                    assert(g[i] == gp[i] && g[j] == gp[j]);
                }
            }
        }
    }
}

proof fn lemma_same_starts<T, B>(h: Seq<(Instant, T)>, w: Seq<(Instant, B)>, x: Instant)
    requires
        h.len() == w.len(),
        forall|i: int| 0 <= i < h.len() ==> #[trigger] h[i].0 == w[i].0,
    ensures
        active_index(h, x) == active_index(w, x),
    decreases h.len(),
{
    if h.len() > 0 {
        assert(h[h.len() - 1].0 == w[w.len() - 1].0);
        let hp = h.drop_last();
        let wp = w.drop_last();
        assert forall|i: int| 0 <= i < hp.len() implies #[trigger] hp[i].0 == wp[i].0 by {
            assert(hp[i] == h[i] && wp[i] == w[i]);
        }
        lemma_same_starts(hp, wp, x);
    }
}

/// Mapping a value over time maps what holds at each instant: the mapped value
/// holds at exactly the instants at which the value holds, and there it holds
/// the result computed for the entry that holds. Runs of equal results are
/// merged, so no two consecutive entries of the mapped value are equal; its
/// first entry starts where the value's first entry starts, and its current
/// value is the result computed for the current entry.
pub proof fn law_map_at<T, B: Eq>(h: Seq<(Instant, T)>, bs: Seq<B>, x: Instant)
    requires
        obeys_concrete_eq::<B>(),
        starts_increasing(h),
        h.len() > 0,
        bs.len() == h.len(),
    ensures
        ({
            let g = compress(with_values(h, bs));
            &&& g.len() > 0
            &&& g[0].0 == h[0].0
            &&& g.last().1 == bs.last()
            &&& starts_increasing(g)
            &&& no_repeats(g)
            &&& (active_index(g, x) is None <==> active_index(h, x) is None)
            &&& active_index(h, x) matches Some(i) ==> (active_index(g, x) matches Some(k) && 0 <= k
                < g.len() && g[k].1 == bs[i])
        }),
{
    let w = with_values(h, bs);
    assert forall|i: int, j: int| #![trigger w[i], w[j]] 0 <= i < j < w.len() implies w[i].0 < w[j].0 by {
        assert(h[i].0 < h[j].0);
    }
    assert forall|i: int| 0 <= i < h.len() implies #[trigger] h[i].0 == w[i].0 by {}
    lemma_same_starts(h, w, x);
    lemma_compress(w, x);
    lemma_compress_keeps_no_repeats(w);
    assert(w.len() == bs.len());
    assert(w.last().1 == bs.last());
    assert(w[0].0 == h[0].0);
    if active_index(h, x) is Some {
        let i = active_index(h, x)->0;
        lemma_active_index(h, x);
        assert(w[i].1 == bs[i]);
    }
}

proof fn lemma_compress_keeps_no_repeats<B: Eq>(w: Seq<(Instant, B)>)
    ensures
        no_repeats(compress(w)),
    decreases w.len(),
{
    if w.len() > 0 {
        lemma_compress_keeps_no_repeats(w.drop_last());
        law_set_keeps_no_repeats(compress(w.drop_last()), w.last().0, w.last().1);
    }
}

/// Iterating lists each entry of the history once, oldest first: the entries
/// start in increasing order, the last is the current value, and the lookup at
/// the start of each entry finds that entry.
pub proof fn law_iter_lists_history<T>(t: Temporal<T>, i: int)
    requires
        t.wf(),
        0 <= i < t.history().len(),
    ensures
        t.history().len() >= 1,
        active_index(t.history(), t.history()[i].0) == Some(i),
        i + 1 < t.history().len() ==> t.history()[i].0 < t.history()[i + 1].0,
{
    let h = t.history();
    let x = h[i].0;
    lemma_active_index(h, x);
    match active_index(h, x) {
        Some(k) => {
            if k < i {
                assert(h[k].0 < h[i].0);
            } else if k > i {
                assert(h[i].0 < h[k].0);
            }
        },
        None => {
            assert(h[i].0 > x);
        },
    }
}

/// The start of a period.
pub open spec fn period_start(p: Period) -> Instant {
    match p {
        Period::From(f) => f.start,
        Period::Finite(f) => f.start,
    }
}

/// The end of a period, if it has one.
pub open spec fn period_end(p: Period) -> Option<Instant> {
    match p {
        Period::From(_) => None,
        Period::Finite(f) => Some(f.end),
    }
}

/// Whether the instant `x` lies in the period `p`: at or after its start, and
/// before its end when it has one.
pub open spec fn period_contains(p: Period, x: Instant) -> bool {
    &&& period_start(p) <= x
    &&& period_end(p) matches Some(e) ==> x < e
}

/// The period of each snapshot that [`Temporal::map`] hands to its function
/// is exactly the span of instants at which that entry holds: an instant lies
/// in the period of entry `i` if and only if the lookup at that instant finds
/// entry `i`. So the periods follow one another without gap or overlap, each
/// ending where the next entry starts, and only the last has no end.
pub proof fn law_map_periods_hold_exactly<T>(h: Seq<(Instant, T)>, i: int, x: Instant)
    requires
        starts_increasing(h),
        0 <= i < h.len(),
    ensures
        period_contains(period_of(h, i), x) <==> active_index(h, x) == Some(i),
        period_start(period_of(h, i)) == h[i].0,
        i + 1 < h.len() ==> period_end(period_of(h, i)) == Some(h[i + 1].0),
        i + 1 == h.len() ==> period_end(period_of(h, i)) is None,
{
    lemma_active_index(h, x);
    match active_index(h, x) {
        Some(k) => {
            if k < i {
                assert(h[k].0 < h[i].0);
            } else if k > i {
                assert(h[i].0 < h[k].0);
                if i + 1 < k {
                    assert(h[i + 1].0 < h[k].0);
                }
            }
        },
        None => {
            assert(h[i].0 > x);
        },
    }
}

/// The periods that [`Temporal::iter`] gives are computed oldest first from
/// the start seen just before: each snapshot starts where its entry starts, the
/// oldest has no end, and every later one ends where the snapshot just before
/// it starts.
pub proof fn law_iter_periods_chain<T>(h: Seq<(Instant, T)>, i: int)
    requires
        0 <= i < h.len(),
    ensures
        period_start(iter_period(h, i)) == h[i].0,
        i == 0 ==> period_end(iter_period(h, i)) is None,
        i > 0 ==> period_end(iter_period(h, i)) == Some(period_start(iter_period(h, i - 1))),
{
}


/// The lookup at an instant finds the latest entry that starts at or before
/// it: that entry starts at or before the instant, the next one (if any) after
/// it; and nothing is found only before the first entry.
pub proof fn law_at_finds_latest<T>(h: Seq<(Instant, T)>, x: Instant)
    requires
        starts_increasing(h),
    ensures
        match active_index(h, x) {
            Some(k) => 0 <= k < h.len() && h[k].0 <= x && (k + 1 < h.len() ==> x < h[k + 1].0),
            None => h.len() == 0 || x < h[0].0,
        },
{
    lemma_active_index(h, x);
}

} // verus!
