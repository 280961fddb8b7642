//! The registry: named instruments, registered once and updated by handle.

use vstd::prelude::*;
use crate::bytes::{bytes_eq, copy_bytes};
use crate::metrics::{
    ascending, empty_model, increment_outcome, observe_fits, observe_model, Counter, Gauge,
    Histogram, HistogramModel, MetricError,
};

verus! {

/// One fixed label of an instrument.
#[derive(Debug)]
pub struct Label {
    pub name: Vec<u8>,
    pub value: Vec<u8>,
}

impl View for Label {
    type V = (Seq<u8>, Seq<u8>);

    open spec fn view(&self) -> (Seq<u8>, Seq<u8>) {
        (self.name@, self.value@)
    }
}

/// The labels as pairs of byte strings, in the order given.
pub open spec fn labels_model(labels: Seq<Label>) -> Seq<(Seq<u8>, Seq<u8>)> {
    Seq::new(labels.len(), |i: int| labels[i]@)
}

/// The kind of instrument that a registration asks for. A histogram comes
/// with its bucket bounds.
#[derive(Debug)]
pub enum Kind {
    Counter,
    Gauge,
    Histogram(Vec<u64>),
}

/// What an instrument currently holds.
#[derive(Debug)]
pub enum Value {
    Counter(Counter),
    Gauge(Gauge),
    Histogram(Histogram),
}

/// What an instrument currently holds, as mathematical values.
pub ghost enum ValueModel {
    Counter(nat),
    Gauge(int),
    Histogram(HistogramModel),
}

impl View for Value {
    type V = ValueModel;

    open spec fn view(&self) -> ValueModel {
        match *self {
            Value::Counter(c) => ValueModel::Counter(c.value as nat),
            Value::Gauge(g) => ValueModel::Gauge(g.value as int),
            Value::Histogram(h) => ValueModel::Histogram(h@),
        }
    }
}

impl Value {
    /// The invariant of a value: that of the histogram, where it is one.
    pub open spec fn wf(&self) -> bool {
        match *self {
            Value::Histogram(h) => h.wf(),
            _ => true,
        }
    }
}

/// The value that a freshly registered instrument of the kind holds.
pub open spec fn initial_value(kind: Kind) -> ValueModel {
    match kind {
        Kind::Counter => ValueModel::Counter(0),
        Kind::Gauge => ValueModel::Gauge(0),
        Kind::Histogram(bounds) => ValueModel::Histogram(empty_model(bounds@)),
    }
}

/// Whether a registration of the kind can be accepted at all.
pub open spec fn kind_valid(kind: Kind) -> bool {
    match kind {
        Kind::Histogram(bounds) => ascending(bounds@),
        _ => true,
    }
}

/// A named instrument with its help text, labels and value.
#[derive(Debug)]
pub struct Instrument {
    pub name: Vec<u8>,
    pub help: Vec<u8>,
    pub labels: Vec<Label>,
    pub value: Value,
}

/// An instrument as mathematical values.
pub ghost struct InstrumentModel {
    pub name: Seq<u8>,
    pub help: Seq<u8>,
    pub labels: Seq<(Seq<u8>, Seq<u8>)>,
    pub value: ValueModel,
}

impl View for Instrument {
    type V = InstrumentModel;

    open spec fn view(&self) -> InstrumentModel {
        InstrumentModel {
            name: self.name@,
            help: self.help@,
            labels: labels_model(self.labels@),
            value: self.value@,
        }
    }
}

/// Whether the instrument goes by this name and this set of labels.
pub open spec fn same_identity(
    m: InstrumentModel,
    name: Seq<u8>,
    labels: Seq<(Seq<u8>, Seq<u8>)>,
) -> bool {
    m.name == name && same_labels(m.labels, labels)
}

/// Whether an instrument with this name and these labels is among `s`.
pub open spec fn registered(
    s: Seq<InstrumentModel>,
    name: Seq<u8>,
    labels: Seq<(Seq<u8>, Seq<u8>)>,
) -> bool {
    exists|i: int| 0 <= i < s.len() && same_identity(#[trigger] s[i], name, labels)
}

/// Whether no two instruments of `s` share name and labels.
pub open spec fn distinct(s: Seq<InstrumentModel>) -> bool {
    forall|i: int, j: int|
        0 <= i < j < s.len() ==> !same_identity(#[trigger] s[i], (#[trigger] s[j]).name, s[j].labels)
}

/// The handle of a registered instrument.
#[derive(Clone, Copy, Debug, PartialEq, Eq, Structural)]
pub struct InstrumentId(pub usize);

/// The instruments of one process.
#[derive(Debug)]
pub struct Registry {
    pub instruments: Vec<Instrument>,
}

impl View for Registry {
    type V = Seq<InstrumentModel>;

    open spec fn view(&self) -> Seq<InstrumentModel> {
        Seq::new(self.instruments@.len(), |i: int| self.instruments@[i]@)
    }
}

/// Whether every pair of `a` is among `b`.
pub open spec fn labels_within(a: Seq<(Seq<u8>, Seq<u8>)>, b: Seq<(Seq<u8>, Seq<u8>)>) -> bool {
    forall|i: int| 0 <= i < a.len() ==> b.contains(#[trigger] a[i])
}

/// Whether two label lists are the same set of labels, in whatever order
/// each was written.
pub open spec fn same_labels(a: Seq<(Seq<u8>, Seq<u8>)>, b: Seq<(Seq<u8>, Seq<u8>)>) -> bool {
    labels_within(a, b) && labels_within(b, a)
}

/// Whether the label `name` with the value `value` is among `labels`.
pub fn has_label(labels: &Vec<Label>, name: &[u8], value: &[u8]) -> (r: bool)
    ensures
        r == labels_model(labels@).contains((name@, value@)),
{
    let ghost pairs = labels_model(labels@);
    let mut j: usize = 0;
    while j < labels.len()
        invariant
            j <= labels@.len(),
            pairs == labels_model(labels@),
            forall|k: int| 0 <= k < j ==> pairs[k] != (name@, value@),
        decreases labels@.len() - j,
    {
        if bytes_eq(labels[j].name.as_slice(), name) && bytes_eq(labels[j].value.as_slice(), value) {
            assert(pairs[j as int] == (name@, value@));
            return true;
        }
        j += 1;
    }
    false
}

/// Whether every label of `a` is among `b`.
pub fn labels_among(a: &Vec<Label>, b: &Vec<Label>) -> (r: bool)
    ensures
        r == labels_within(labels_model(a@), labels_model(b@)),
{
    let ghost pa = labels_model(a@);
    let ghost pb = labels_model(b@);
    let mut i: usize = 0;
    while i < a.len()
        invariant
            i <= a@.len(),
            pa == labels_model(a@),
            pb == labels_model(b@),
            forall|k: int| 0 <= k < i ==> pb.contains(#[trigger] pa[k]),
        decreases a@.len() - i,
    {
        if !has_label(b, a[i].name.as_slice(), a[i].value.as_slice()) {
            assert(!pb.contains(pa[i as int]));
            return false;
        }
        i += 1;
    }
    true
}

/// Whether two label lists are the same set of labels.
pub fn labels_eq(a: &Vec<Label>, b: &Vec<Label>) -> (r: bool)
    ensures
        r == same_labels(labels_model(a@), labels_model(b@)),
{
    labels_among(a, b) && labels_among(b, a)
}

/// The instruments `s` with the value of the one at `i` replaced.
pub open spec fn with_value(s: Seq<InstrumentModel>, i: int, value: ValueModel) -> Seq<
    InstrumentModel,
> {
    s.update(i, InstrumentModel { value, ..s[i] })
}

/// The value after an increment by `amount`, or the reason for which the
/// increment is refused.
pub open spec fn value_incremented(v: ValueModel, amount: i64) -> Result<ValueModel, MetricError> {
    match v {
        ValueModel::Counter(c) => if c <= u64::MAX {
            match increment_outcome(c as u64, amount) {
                Ok(n) => Ok(ValueModel::Counter(n as nat)),
                Err(e) => Err(e),
            }
        } else {
            Err(MetricError::Overflow)
        },
        _ => Err(MetricError::WrongKind),
    }
}

/// The value after a set to `value`, or the reason for which the set is
/// refused.
pub open spec fn value_set(v: ValueModel, value: i64) -> Result<ValueModel, MetricError> {
    match v {
        ValueModel::Gauge(_) => Ok(ValueModel::Gauge(value as int)),
        _ => Err(MetricError::WrongKind),
    }
}

/// The value after the observation `x`, or the reason for which the
/// observation is refused.
pub open spec fn value_observed(v: ValueModel, x: u64) -> Result<ValueModel, MetricError> {
    match v {
        ValueModel::Histogram(h) => if observe_fits(h, x) {
            Ok(ValueModel::Histogram(observe_model(h, x)))
        } else {
            Err(MetricError::Overflow)
        },
        _ => Err(MetricError::WrongKind),
    }
}

/// The instruments after an update of the one behind `id`, where `outcome`
/// is what the update makes of that instrument's value; `UnknownInstrument`
/// where `id` names none.
pub open spec fn updated(
    s: Seq<InstrumentModel>,
    id: InstrumentId,
    outcome: Result<ValueModel, MetricError>,
) -> Result<Seq<InstrumentModel>, MetricError> {
    if id.0 >= s.len() {
        Err(MetricError::UnknownInstrument)
    } else {
        match outcome {
            Ok(v) => Ok(with_value(s, id.0 as int, v)),
            Err(e) => Err(e),
        }
    }
}

/// The instruments after an increment, or the reason for its refusal.
pub open spec fn increment_result(s: Seq<InstrumentModel>, id: InstrumentId, amount: i64) -> Result<
    Seq<InstrumentModel>,
    MetricError,
> {
    updated(s, id, value_incremented(s[id.0 as int].value, amount))
}

/// The instruments after a set, or the reason for its refusal.
pub open spec fn set_result(s: Seq<InstrumentModel>, id: InstrumentId, value: i64) -> Result<
    Seq<InstrumentModel>,
    MetricError,
> {
    updated(s, id, value_set(s[id.0 as int].value, value))
}

/// The instruments after an observation, or the reason for its refusal.
pub open spec fn observe_result(s: Seq<InstrumentModel>, id: InstrumentId, x: u64) -> Result<
    Seq<InstrumentModel>,
    MetricError,
> {
    updated(s, id, value_observed(s[id.0 as int].value, x))
}

impl Value {
    /// Adds `amount`, where this is a counter.
    ///
    /// Refused with `WrongKind` where it is none, with `InvalidValue` where
    /// the amount is negative and with `Overflow` where the sum leaves
    /// `u64`. A refused increment changes nothing.
    pub fn increment(&mut self, amount: i64) -> (r: Result<(), MetricError>)
        ensures
            old(self).wf() ==> final(self).wf(),
            match value_incremented(old(self)@, amount) {
                Ok(v) => r.is_ok() && final(self)@ == v,
                Err(e) => r == Err::<(), MetricError>(e) && *final(self) == *old(self),
            },
    {
        match self {
            Value::Counter(c) => c.increment(amount),
            _ => Err(MetricError::WrongKind),
        }
    }

    /// Sets the value, where this is a gauge. Refused with `WrongKind`,
    /// and nothing changed, where it is none.
    pub fn set(&mut self, value: i64) -> (r: Result<(), MetricError>)
        ensures
            old(self).wf() ==> final(self).wf(),
            match value_set(old(self)@, value) {
                Ok(v) => r.is_ok() && final(self)@ == v,
                Err(e) => r == Err::<(), MetricError>(e) && *final(self) == *old(self),
            },
    {
        match self {
            Value::Gauge(g) => {
                g.set(value);
                Ok(())
            },
            _ => Err(MetricError::WrongKind),
        }
    }

    /// Records the observation `x`, where this is a histogram.
    ///
    /// Refused with `WrongKind` where it is none and with `Overflow` where
    /// the count or the sum would leave `u64`. A refused observation
    /// changes nothing.
    pub fn observe(&mut self, x: u64) -> (r: Result<(), MetricError>)
        requires
            old(self).wf(),
        ensures
            final(self).wf(),
            match value_observed(old(self)@, x) {
                Ok(v) => r.is_ok() && final(self)@ == v,
                Err(e) => r == Err::<(), MetricError>(e) && *final(self) == *old(self),
            },
    {
        match self {
            Value::Histogram(h) => h.observe(x),
            _ => Err(MetricError::WrongKind),
        }
    }

    /// Whether the invariant holds of this value.
    pub fn is_well_formed(&self) -> (r: bool)
        ensures
            r == self.wf(),
    {
        match self {
            Value::Histogram(h) => h.is_well_formed(),
            _ => true,
        }
    }

    /// A copy of the value, taken as one consistent whole.
    pub fn duplicate(&self) -> (r: Value)
        ensures
            r@ == self@,
            self.wf() ==> r.wf(),
    {
        match self {
            Value::Counter(c) => Value::Counter(Counter { value: c.value }),
            Value::Gauge(g) => Value::Gauge(Gauge { value: g.value }),
            Value::Histogram(h) => {
                let copy = Histogram {
                    bounds: copy_numbers(&h.bounds),
                    buckets: copy_numbers(&h.buckets),
                    count: h.count,
                    sum: h.sum,
                };
                assert(copy@.buckets =~= h@.buckets);
                Value::Histogram(copy)
            },
        }
    }
}

/// Replacing a value keeps names and labels apart as they were.
pub proof fn lemma_with_value_distinct(s: Seq<InstrumentModel>, i: int, value: ValueModel)
    requires
        distinct(s),
        0 <= i < s.len(),
    ensures
        distinct(with_value(s, i, value)),
{
    let t = with_value(s, i, value);
    assert forall|a: int, b: int| 0 <= a < b < t.len() implies !same_identity(
        #[trigger] t[a],
        (#[trigger] t[b]).name,
        t[b].labels,
    ) by {
        assert(t[a].name == s[a].name && t[a].labels == s[a].labels);
        assert(t[b].name == s[b].name && t[b].labels == s[b].labels);
        assert(!same_identity(s[a], s[b].name, s[b].labels));
    }
}

impl Registry {
    /// The invariant of a registry: no two instruments share name and
    /// labels, and every histogram is well formed.
    pub open spec fn wf(&self) -> bool {
        &&& distinct(self@)
        &&& forall|i: int|
            0 <= i < self.instruments@.len() ==> (#[trigger] self.instruments@[i]).value.wf()
    }

    /// A registry without instruments.
    pub fn new() -> (r: Registry)
        ensures
            r.wf(),
            r@ == Seq::<InstrumentModel>::empty(),
    {
        let r = Registry { instruments: Vec::new() };
        assert(r@ =~= Seq::<InstrumentModel>::empty());
        r
    }

    /// How many instruments are registered.
    pub fn len(&self) -> (n: usize)
        ensures
            n == self@.len(),
    {
        self.instruments.len()
    }

    /// Whether an instrument with this name and these labels is registered.
    pub fn contains(&self, name: &[u8], labels: &Vec<Label>) -> (r: bool)
        ensures
            r == registered(self@, name@, labels_model(labels@)),
    {
        let mut i: usize = 0;
        while i < self.instruments.len()
            invariant
                i <= self.instruments@.len(),
                forall|j: int|
                    0 <= j < i ==> !same_identity(
                        #[trigger] self@[j],
                        name@,
                        labels_model(labels@),
                    ),
            decreases self.instruments@.len() - i,
        {
            if bytes_eq(self.instruments[i].name.as_slice(), name) && labels_eq(
                &self.instruments[i].labels,
                labels,
            ) {
                assert(same_identity(self@[i as int], name@, labels_model(labels@)));
                return true;
            }
            i += 1;
        }
        false
    }

    /// Registers an instrument and hands out its handle.
    ///
    /// Refused with `InvalidBuckets` where a histogram's bounds are not
    /// strictly ascending, and otherwise with `DuplicateMetric` where the
    /// name and labels are taken. A refused registration changes nothing.
    pub fn register(&mut self, name: Vec<u8>, kind: Kind, help: Vec<u8>, labels: Vec<Label>) -> (r:
        Result<InstrumentId, MetricError>)
        requires
            old(self).wf(),
        ensures
            final(self).wf(),
            match r {
                Ok(id) => {
                    &&& kind_valid(kind)
                    &&& !registered(old(self)@, name@, labels_model(labels@))
                    &&& id.0 == old(self)@.len()
                    &&& final(self)@ == old(self)@.push(
                        InstrumentModel {
                            name: name@,
                            help: help@,
                            labels: labels_model(labels@),
                            value: initial_value(kind),
                        },
                    )
                },
                Err(e) => {
                    &&& *final(self) == *old(self)
                    &&& e == if !kind_valid(kind) {
                        MetricError::InvalidBuckets
                    } else {
                        MetricError::DuplicateMetric
                    }
                    &&& !kind_valid(kind) || registered(old(self)@, name@, labels_model(labels@))
                },
            },
    {
        let ghost wanted = initial_value(kind);
        let value = match kind {
            Kind::Counter => Value::Counter(Counter::new()),
            Kind::Gauge => Value::Gauge(Gauge::new()),
            Kind::Histogram(bounds) => match Histogram::new(bounds) {
                Some(h) => Value::Histogram(h),
                None => {
                    return Err(MetricError::InvalidBuckets);
                },
            },
        };
        assert(value@ == wanted);
        if self.contains(name.as_slice(), &labels) {
            return Err(MetricError::DuplicateMetric);
        }
        let id = InstrumentId(self.instruments.len());
        let ins = Instrument { name, help, labels, value };
        self.instruments.push(ins);
        assert(self@ =~= old(self)@.push(ins@));
        assert(distinct(self@)) by {
            assert forall|i: int, j: int| 0 <= i < j < self@.len() implies !same_identity(
                #[trigger] self@[i],
                (#[trigger] self@[j]).name,
                self@[j].labels,
            ) by {
                assert(self@[i] == old(self)@[i]);
                if j < old(self)@.len() {
                    assert(self@[j] == old(self)@[j]);
                }
            }
        }
        Ok(id)
    }

    /// Adds `amount` to the counter behind `id`.
    ///
    /// Refused with `UnknownInstrument` where `id` names nothing, with
    /// `WrongKind` where it names no counter, with `InvalidValue` where the
    /// amount is negative and with `Overflow` where the sum leaves `u64`. A
    /// refused increment changes nothing.
    pub fn increment(&mut self, id: InstrumentId, amount: i64) -> (r: Result<(), MetricError>)
        requires
            old(self).wf(),
        ensures
            final(self).wf(),
            match increment_result(old(self)@, id, amount) {
                Ok(s) => r.is_ok() && final(self)@ == s,
                Err(e) => r == Err::<(), MetricError>(e) && final(self).instruments@ == old(
                    self,
                ).instruments@,
            },
    {
        let i: usize = id.0;
        if i >= self.instruments.len() {
            return Err(MetricError::UnknownInstrument);
        }
        assert(self@[i as int] == self.instruments@[i as int]@);
        let r = self.instruments[i].value.increment(amount);
        proof {
            self.lemma_updated(*old(self), i as int);
        }
        r
    }

    /// Sets the gauge behind `id` to `value`.
    ///
    /// Refused with `UnknownInstrument` where `id` names nothing and with
    /// `WrongKind` where it names no gauge. A refused set changes nothing.
    pub fn set(&mut self, id: InstrumentId, value: i64) -> (r: Result<(), MetricError>)
        requires
            old(self).wf(),
        ensures
            final(self).wf(),
            match set_result(old(self)@, id, value) {
                Ok(s) => r.is_ok() && final(self)@ == s,
                Err(e) => r == Err::<(), MetricError>(e) && final(self).instruments@ == old(
                    self,
                ).instruments@,
            },
    {
        let i: usize = id.0;
        if i >= self.instruments.len() {
            return Err(MetricError::UnknownInstrument);
        }
        assert(self@[i as int] == self.instruments@[i as int]@);
        let r = self.instruments[i].value.set(value);
        proof {
            self.lemma_updated(*old(self), i as int);
        }
        r
    }

    /// Records the observation `x` in the histogram behind `id`.
    ///
    /// Refused with `UnknownInstrument` where `id` names nothing, with
    /// `WrongKind` where it names no histogram and with `Overflow` where
    /// the count or the sum would leave `u64`. A refused observation
    /// changes nothing.
    pub fn observe(&mut self, id: InstrumentId, x: u64) -> (r: Result<(), MetricError>)
        requires
            old(self).wf(),
        ensures
            final(self).wf(),
            match observe_result(old(self)@, id, x) {
                Ok(s) => r.is_ok() && final(self)@ == s,
                Err(e) => r == Err::<(), MetricError>(e) && final(self).instruments@ == old(
                    self,
                ).instruments@,
            },
    {
        let i: usize = id.0;
        if i >= self.instruments.len() {
            return Err(MetricError::UnknownInstrument);
        }
        assert(self@[i as int] == self.instruments@[i as int]@);
        assert(self.instruments@[i as int].value.wf());
        let r = self.instruments[i].value.observe(x);
        proof {
            self.lemma_updated(*old(self), i as int);
        }
        r
    }

    /// Whether the invariant holds of this registry.
    pub fn is_well_formed(&self) -> (r: bool)
        ensures
            r == self.wf(),
    {
        let n: usize = self.instruments.len();
        let mut j: usize = 0;
        while j < n
            invariant
                j <= n,
                n == self.instruments@.len(),
                forall|k: int| 0 <= k < j ==> (#[trigger] self.instruments@[k]).value.wf(),
                forall|a: int, b: int|
                    0 <= a < b < j ==> !same_identity(
                        #[trigger] self@[a],
                        (#[trigger] self@[b]).name,
                        self@[b].labels,
                    ),
            decreases n - j,
        {
            if !self.instruments[j].value.is_well_formed() {
                return false;
            }
            let mut i: usize = 0;
            while i < j
                invariant
                    i <= j,
                    j < n,
                    n == self.instruments@.len(),
                    forall|a: int|
                        0 <= a < i ==> !same_identity(
                            #[trigger] self@[a],
                            self@[j as int].name,
                            self@[j as int].labels,
                        ),
                decreases j - i,
            {
                if bytes_eq(
                    self.instruments[i].name.as_slice(),
                    self.instruments[j].name.as_slice(),
                ) && labels_eq(&self.instruments[i].labels, &self.instruments[j].labels) {
                    assert(same_identity(
                        self@[i as int],
                        self@[j as int].name,
                        self@[j as int].labels,
                    ));
                    return false;
                }
                i += 1;
            }
            j += 1;
        }
        true
    }

    /// The instrument behind a handle, or `None` where it names nothing.
    pub fn get(&self, id: InstrumentId) -> (r: Option<&Instrument>)
        ensures
            match r {
                Some(ins) => id.0 < self@.len() && ins@ == self@[id.0 as int] && *ins
                    == self.instruments@[id.0 as int],
                None => id.0 >= self@.len(),
            },
    {
        if id.0 < self.instruments.len() {
            Some(&self.instruments[id.0])
        } else {
            None
        }
    }

    /// Every instrument with its current value, in the order of
    /// registration.
    pub fn snapshot(&self) -> (r: Vec<Instrument>)
        ensures
            models(r@) == self@,
            self.wf() ==> forall|i: int| 0 <= i < r@.len() ==> (#[trigger] r@[i]).value.wf(),
    {
        let mut r: Vec<Instrument> = Vec::new();
        let mut i: usize = 0;
        while i < self.instruments.len()
            invariant
                i <= self.instruments@.len(),
                r@.len() == i,
                forall|j: int| 0 <= j < i ==> (#[trigger] r@[j])@ == self.instruments@[j]@,
                self.wf() ==> forall|j: int| 0 <= j < i ==> (#[trigger] r@[j]).value.wf(),
            decreases self.instruments@.len() - i,
        {
            r.push(self.instruments[i].duplicate());
            i += 1;
        }
        assert(models(r@) =~= self@);
        r
    }

    /// A registry that differs from a well-formed one in the value of one
    /// instrument at most is that registry with the value replaced, and is
    /// well formed where the new value is.
    pub proof fn lemma_updated(&self, before: Registry, i: int)
        requires
            before.wf(),
            0 <= i < before.instruments@.len(),
            self.instruments@.len() == before.instruments@.len(),
            forall|j: int|
                0 <= j < before.instruments@.len() && j != i ==> self.instruments@[j]
                    == before.instruments@[j],
            self.instruments@[i].name == before.instruments@[i].name,
            self.instruments@[i].help == before.instruments@[i].help,
            self.instruments@[i].labels == before.instruments@[i].labels,
            self.instruments@[i].value.wf(),
        ensures
            self@ == with_value(before@, i, self.instruments@[i].value@),
            self.wf(),
            self.instruments@[i].value == before.instruments@[i].value ==> self.instruments@
                == before.instruments@,
    {
        assert(self@ =~= with_value(before@, i, self.instruments@[i].value@));
        lemma_with_value_distinct(before@, i, self.instruments@[i].value@);
        assert forall|j: int| 0 <= j < self.instruments@.len() implies (
        #[trigger] self.instruments@[j]).value.wf() by {
            if j != i {
                assert(self.instruments@[j] == before.instruments@[j]);
            }
        }
        if self.instruments@[i].value == before.instruments@[i].value {
            assert(self.instruments@ =~= before.instruments@);
        }
    }
}

/// The instruments as mathematical values, in their order.
pub open spec fn models(s: Seq<Instrument>) -> Seq<InstrumentModel> {
    Seq::new(s.len(), |i: int| s[i]@)
}

/// A fresh vector with the numbers of `a`.
pub fn copy_numbers(a: &Vec<u64>) -> (r: Vec<u64>)
    ensures
        r@ == a@,
{
    let mut r: Vec<u64> = Vec::new();
    let mut i: usize = 0;
    while i < a.len()
        invariant
            i <= a@.len(),
            r@ == a@.take(i as int),
        decreases a@.len() - i,
    {
        r.push(a[i]);
        assert(a@.take(i + 1) =~= a@.take(i as int).push(a@[i as int]));
        i += 1;
    }
    assert(a@.take(a@.len() as int) =~= a@);
    r
}

/// A fresh list with the same labels.
pub fn copy_labels(a: &Vec<Label>) -> (r: Vec<Label>)
    ensures
        labels_model(r@) == labels_model(a@),
{
    let mut r: Vec<Label> = Vec::new();
    let mut i: usize = 0;
    while i < a.len()
        invariant
            i <= a@.len(),
            r@.len() == i,
            forall|j: int| 0 <= j < i ==> r@[j]@ == a@[j]@,
        decreases a@.len() - i,
    {
        r.push(
            Label {
                name: copy_bytes(a[i].name.as_slice()),
                value: copy_bytes(a[i].value.as_slice()),
            },
        );
        i += 1;
    }
    assert(labels_model(r@) =~= labels_model(a@));
    r
}

impl Instrument {
    /// A copy of the instrument with its current value.
    pub fn duplicate(&self) -> (r: Instrument)
        ensures
            r@ == self@,
            self.value.wf() ==> r.value.wf(),
    {
        Instrument {
            name: copy_bytes(self.name.as_slice()),
            help: copy_bytes(self.help.as_slice()),
            labels: copy_labels(&self.labels),
            value: self.value.duplicate(),
        }
    }
}

} // verus!
