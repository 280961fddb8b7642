//! The three kinds of instrument: counter, gauge and histogram.
//!
//! Values are whole numbers in the unit the caller chose (events,
//! milliseconds, the smallest unit of a balance).

use vstd::prelude::*;

verus! {

/// Why a registration or an update was refused.
#[derive(Clone, Copy, Debug, PartialEq, Eq, Structural)]
pub enum MetricError {
    /// An instrument with the same name and labels is already registered.
    DuplicateMetric,
    /// The bucket bounds of a histogram are not strictly ascending.
    InvalidBuckets,
    /// The handle names no instrument of this registry.
    UnknownInstrument,
    /// The instrument is of another kind than the update is for.
    WrongKind,
    /// A counter was asked to go down.
    InvalidValue,
    /// The update would leave the range of the stored number.
    Overflow,
}

/// A value that only grows.
#[derive(Clone, Copy, Debug, PartialEq, Eq, Structural)]
pub struct Counter {
    pub value: u64,
}

/// The value of a counter after one accepted increment.
pub open spec fn counter_step(value: nat, amount: int) -> nat
    recommends
        amount >= 0,
{
    (value + amount) as nat
}

/// The value of a counter after a sequence of accepted increments.
pub open spec fn counter_after(start: nat, amounts: Seq<int>) -> nat
    decreases amounts.len(),
{
    if amounts.len() == 0 {
        start
    } else {
        counter_step(counter_after(start, amounts.drop_last()), amounts.last())
    }
}

/// The sum of a sequence of amounts.
pub open spec fn sum_of(amounts: Seq<int>) -> int
    decreases amounts.len(),
{
    if amounts.len() == 0 {
        0
    } else {
        sum_of(amounts.drop_last()) + amounts.last()
    }
}

/// Whether no amount of the sequence is negative.
pub open spec fn all_non_negative(amounts: Seq<int>) -> bool {
    forall|i: int| 0 <= i < amounts.len() ==> amounts[i] >= 0
}

/// The outcome that an increment by `amount` is owed on a counter at `value`.
pub open spec fn increment_outcome(value: u64, amount: i64) -> Result<u64, MetricError> {
    if amount < 0 {
        Err(MetricError::InvalidValue)
    } else if value + amount > u64::MAX {
        Err(MetricError::Overflow)
    } else {
        Ok(counter_step(value as nat, amount as int) as u64)
    }
}

impl Counter {
    /// A counter at zero.
    pub fn new() -> (c: Counter)
        ensures
            c.value == 0,
    {
        Counter { value: 0 }
    }

    /// The current value.
    pub fn get(&self) -> (v: u64)
        ensures
            v == self.value,
    {
        self.value
    }

    /// Adds `amount`. A negative amount is refused with `InvalidValue`, a
    /// sum beyond `u64::MAX` with `Overflow`; a refused increment leaves the
    /// counter as it was.
    pub fn increment(&mut self, amount: i64) -> (r: Result<(), MetricError>)
        ensures
            match increment_outcome(old(self).value, amount) {
                Ok(v) => r.is_ok() && final(self).value == v && v == counter_step(
                    old(self).value as nat,
                    amount as int,
                ),
                Err(e) => r == Err::<(), MetricError>(e) && *final(self) == *old(self),
            },
            final(self).value >= old(self).value,
    {
        if amount < 0 {
            return Err(MetricError::InvalidValue);
        }
        let step: u64 = amount as u64;
        if step > u64::MAX - self.value {
            return Err(MetricError::Overflow);
        }
        self.value = self.value + step;
        Ok(())
    }
}

/// A value that is set outright.
#[derive(Clone, Copy, Debug, PartialEq, Eq, Structural)]
pub struct Gauge {
    pub value: i64,
}

/// The value of a gauge after one set: the value set, whatever it held.
pub open spec fn gauge_step(value: int, set: int) -> int {
    set
}

/// The value of a gauge that started at `start` after a sequence of sets,
/// taken one at a time.
pub open spec fn gauge_fold(start: int, sets: Seq<int>) -> int
    decreases sets.len(),
{
    if sets.len() == 0 {
        start
    } else {
        gauge_step(gauge_fold(start, sets.drop_last()), sets.last())
    }
}

/// The last value set, or `start` where nothing was set.
pub open spec fn gauge_after(start: int, sets: Seq<int>) -> int {
    if sets.len() == 0 {
        start
    } else {
        sets.last()
    }
}

impl Gauge {
    /// A gauge at zero.
    pub fn new() -> (g: Gauge)
        ensures
            g.value == 0,
    {
        Gauge { value: 0 }
    }

    /// The current value.
    pub fn get(&self) -> (v: i64)
        ensures
            v == self.value,
    {
        self.value
    }

    /// Replaces the value by `value`.
    pub fn set(&mut self, value: i64)
        ensures
            final(self).value == value,
            final(self).value == gauge_step(old(self).value as int, value as int),
    {
        self.value = value;
    }
}

/// A distribution of observations over fixed buckets.
///
/// `buckets[i]` counts the observations at or under `bounds[i]`.
#[derive(Debug)]
pub struct Histogram {
    pub bounds: Vec<u64>,
    pub buckets: Vec<u64>,
    pub count: u64,
    pub sum: u64,
}

/// What a histogram holds, as mathematical values.
pub ghost struct HistogramModel {
    pub bounds: Seq<u64>,
    pub buckets: Seq<nat>,
    pub count: nat,
    pub sum: nat,
}

/// Whether the bounds are strictly ascending.
pub open spec fn ascending(bounds: Seq<u64>) -> bool {
    forall|i: int, j: int| 0 <= i < j < bounds.len() ==> bounds[i] < bounds[j]
}

/// A histogram over `bounds` that has seen nothing.
pub open spec fn empty_model(bounds: Seq<u64>) -> HistogramModel {
    HistogramModel {
        bounds,
        buckets: Seq::new(bounds.len(), |i: int| 0nat),
        count: 0,
        sum: 0,
    }
}

/// The histogram after one more observation `v`: every bucket whose bound
/// is at least `v` grows by one, so does the count, and the sum grows by `v`.
pub open spec fn observe_model(m: HistogramModel, v: u64) -> HistogramModel {
    HistogramModel {
        bounds: m.bounds,
        buckets: Seq::new(
            m.buckets.len(),
            |i: int|
                if v <= m.bounds[i] {
                    m.buckets[i] + 1
                } else {
                    m.buckets[i]
                },
        ),
        count: m.count + 1,
        sum: m.sum + v as nat,
    }
}

/// The histogram after a sequence of observations.
pub open spec fn observe_all(m: HistogramModel, obs: Seq<u64>) -> HistogramModel
    decreases obs.len(),
{
    if obs.len() == 0 {
        m
    } else {
        observe_model(observe_all(m, obs.drop_last()), obs.last())
    }
}

/// The arithmetic total of the observations.
pub open spec fn total_of(obs: Seq<u64>) -> nat
    decreases obs.len(),
{
    if obs.len() == 0 {
        0
    } else {
        total_of(obs.drop_last()) + obs.last() as nat
    }
}

/// How many of the observations are at or under `bound`.
pub open spec fn count_at_most(obs: Seq<u64>, bound: u64) -> nat
    decreases obs.len(),
{
    if obs.len() == 0 {
        0
    } else {
        count_at_most(obs.drop_last(), bound) + if obs.last() <= bound {
            1nat
        } else {
            0nat
        }
    }
}

/// Whether the histogram can take the observation `v` without leaving the
/// range of its count or of its sum.
pub open spec fn observe_fits(m: HistogramModel, v: u64) -> bool {
    m.count < u64::MAX && m.sum + v <= u64::MAX
}

impl View for Histogram {
    type V = HistogramModel;

    open spec fn view(&self) -> HistogramModel {
        HistogramModel {
            bounds: self.bounds@,
            buckets: Seq::new(self.buckets@.len(), |i: int| self.buckets@[i] as nat),
            count: self.count as nat,
            sum: self.sum as nat,
        }
    }
}

/// Whether the bounds in `bounds` are strictly ascending.
pub fn is_ascending(bounds: &Vec<u64>) -> (r: bool)
    ensures
        r == ascending(bounds@),
{
    let n: usize = bounds.len();
    if n < 2 {
        return true;
    }
    let mut i: usize = 1;
    while i < n
        invariant
            n == bounds@.len(),
            1 <= i <= n,
            forall|a: int, b: int| 0 <= a < b < i ==> bounds@[a] < bounds@[b],
        decreases n - i,
    {
        if bounds[i - 1] >= bounds[i] {
            return false;
        }
        i += 1;
    }
    true
}

impl Histogram {
    /// The invariant of a histogram: ascending bounds, one bucket for each
    /// bound, and no bucket above the count.
    pub open spec fn wf(&self) -> bool {
        &&& ascending(self.bounds@)
        &&& self.buckets@.len() == self.bounds@.len()
        &&& forall|i: int| 0 <= i < self.buckets@.len() ==> self.buckets@[i] <= self.count
    }

    /// Whether the invariant holds of this histogram.
    pub fn is_well_formed(&self) -> (r: bool)
        ensures
            r == self.wf(),
    {
        if !is_ascending(&self.bounds) || self.buckets.len() != self.bounds.len() {
            return false;
        }
        let n: usize = self.buckets.len();
        let mut i: usize = 0;
        while i < n
            invariant
                i <= n,
                n == self.buckets@.len(),
                forall|j: int| 0 <= j < i ==> self.buckets@[j] <= self.count,
            decreases n - i,
        {
            if self.buckets[i] > self.count {
                return false;
            }
            i += 1;
        }
        true
    }

    /// An empty histogram over `bounds`, where they are strictly ascending;
    /// `None` where they are not.
    pub fn new(bounds: Vec<u64>) -> (r: Option<Histogram>)
        ensures
            r.is_some() <==> ascending(bounds@),
            match r {
                Some(h) => h.wf() && h@ == empty_model(bounds@),
                None => true,
            },
    {
        if !is_ascending(&bounds) {
            return None;
        }
        let n: usize = bounds.len();
        let mut buckets: Vec<u64> = Vec::new();
        let mut i: usize = 0;
        while i < n
            invariant
                i <= n,
                buckets@.len() == i,
                forall|j: int| 0 <= j < i ==> buckets@[j] == 0,
            decreases n - i,
        {
            buckets.push(0);
            i += 1;
        }
        let h = Histogram { bounds, buckets, count: 0, sum: 0 };
        assert(h@.buckets =~= empty_model(h.bounds@).buckets);
        Some(h)
    }

    /// Records one observation. Refused with `Overflow`, and nothing
    /// changed, where the count or the sum would leave `u64`.
    pub fn observe(&mut self, v: u64) -> (r: Result<(), MetricError>)
        requires
            old(self).wf(),
        ensures
            final(self).wf(),
            r.is_ok() <==> observe_fits(old(self)@, v),
            match r {
                Ok(()) => final(self)@ == observe_model(old(self)@, v),
                Err(e) => e == MetricError::Overflow && *final(self) == *old(self),
            },
    {
        if self.count == u64::MAX || v > u64::MAX - self.sum {
            return Err(MetricError::Overflow);
        }
        let n: usize = self.buckets.len();
        let mut i: usize = 0;
        while i < n
            invariant
                i <= n,
                n == self.buckets@.len(),
                self.bounds == old(self).bounds,
                self.count == old(self).count,
                self.sum == old(self).sum,
                self.count < u64::MAX,
                self.buckets@.len() == old(self).buckets@.len(),
                self.buckets@.len() == self.bounds@.len(),
                forall|j: int| 0 <= j < n ==> old(self).buckets@[j] <= self.count,
                forall|j: int|
                    0 <= j < i ==> self.buckets@[j] == observe_model(old(self)@, v).buckets[j],
                forall|j: int| i <= j < n ==> self.buckets@[j] == old(self).buckets@[j],
            decreases n - i,
        {
            if v <= self.bounds[i] {
                let c: u64 = self.buckets[i];
                self.buckets[i] = c + 1;
            }
            i += 1;
        }
        self.count = self.count + 1;
        self.sum = self.sum + v;
        assert(self@.buckets =~= observe_model(old(self)@, v).buckets);
        Ok(())
    }
}

} // verus!
