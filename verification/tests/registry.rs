use metrics_exporter::metrics::MetricError;
use metrics_exporter::registry::{InstrumentId, Kind, Label, Registry, Value};

fn label(name: &str, value: &str) -> Label {
    Label { name: name.as_bytes().to_vec(), value: value.as_bytes().to_vec() }
}

fn three() -> (Registry, InstrumentId, InstrumentId, InstrumentId) {
    let mut r = Registry::new();
    let c = r
        .register(b"jobs".to_vec(), Kind::Counter, b"Jobs done".to_vec(), vec![label("handler", "all")])
        .unwrap();
    let g = r.register(b"balance".to_vec(), Kind::Gauge, b"Balance".to_vec(), vec![]).unwrap();
    let h = r
        .register(b"duration_ms".to_vec(), Kind::Histogram(vec![1, 5, 25]), b"Time".to_vec(), vec![])
        .unwrap();
    (r, c, g, h)
}

fn counter_of(r: &Registry, id: InstrumentId) -> u64 {
    match &r.get(id).unwrap().value {
        Value::Counter(c) => c.get(),
        _ => panic!("no counter"),
    }
}

#[test]
fn handles_count_up_from_zero() {
    let (r, c, g, h) = three();
    assert_eq!((c, g, h), (InstrumentId(0), InstrumentId(1), InstrumentId(2)));
    assert_eq!(r.len(), 3);
    assert!(r.is_well_formed());
}

#[test]
fn same_name_and_labels_are_registered_once() {
    let (mut r, _, _, _) = three();
    let again = r.register(b"jobs".to_vec(), Kind::Gauge, b"other".to_vec(), vec![label("handler", "all")]);
    assert_eq!(again, Err(MetricError::DuplicateMetric));
    assert_eq!(r.len(), 3);
    let other_labels =
        r.register(b"jobs".to_vec(), Kind::Counter, b"Jobs done".to_vec(), vec![label("handler", "one")]);
    assert_eq!(other_labels, Ok(InstrumentId(3)));
    let no_labels = r.register(b"jobs".to_vec(), Kind::Counter, b"Jobs done".to_vec(), vec![]);
    assert_eq!(no_labels, Ok(InstrumentId(4)));
    assert!(r.contains(b"jobs", &vec![label("handler", "one")]));
    assert!(!r.contains(b"jobs", &vec![label("handler", "two")]));
    assert!(!r.contains(b"job", &vec![]));
}

#[test]
fn descending_bounds_are_refused_before_anything_else() {
    let (mut r, _, _, _) = three();
    let bad = r.register(b"jobs".to_vec(), Kind::Histogram(vec![5, 1]), vec![], vec![label("handler", "all")]);
    assert_eq!(bad, Err(MetricError::InvalidBuckets));
    let bad = r.register(b"fresh".to_vec(), Kind::Histogram(vec![2, 2]), vec![], vec![]);
    assert_eq!(bad, Err(MetricError::InvalidBuckets));
    assert_eq!(r.len(), 3);
}

#[test]
fn increments_add_up_in_the_registry() {
    let (mut r, c, _, _) = three();
    assert_eq!(r.increment(c, 1), Ok(()));
    assert_eq!(r.increment(c, 41), Ok(()));
    assert_eq!(counter_of(&r, c), 42);
    assert_eq!(r.increment(c, -5), Err(MetricError::InvalidValue));
    assert_eq!(counter_of(&r, c), 42);
    assert_eq!(r.increment(c, i64::MAX), Ok(()));
    assert_eq!(r.increment(c, i64::MAX), Err(MetricError::Overflow));
    assert_eq!(counter_of(&r, c), 9223372036854775849);
}

#[test]
fn ten_callers_of_a_thousand_increments_lose_none() {
    let (mut r, c, _, _) = three();
    for _caller in 0..10 {
        for _ in 0..1000 {
            r.increment(c, 1).unwrap();
        }
    }
    assert_eq!(counter_of(&r, c), 10_000);
}

#[test]
fn updates_are_for_one_kind_each() {
    let (mut r, c, g, h) = three();
    assert_eq!(r.increment(g, 1), Err(MetricError::WrongKind));
    assert_eq!(r.increment(h, 1), Err(MetricError::WrongKind));
    assert_eq!(r.increment(h, -1), Err(MetricError::WrongKind));
    assert_eq!(r.set(c, 1), Err(MetricError::WrongKind));
    assert_eq!(r.set(h, 1), Err(MetricError::WrongKind));
    assert_eq!(r.observe(c, 1), Err(MetricError::WrongKind));
    assert_eq!(r.observe(g, 1), Err(MetricError::WrongKind));
    let unknown = InstrumentId(3);
    assert_eq!(r.increment(unknown, 1), Err(MetricError::UnknownInstrument));
    assert_eq!(r.set(unknown, 1), Err(MetricError::UnknownInstrument));
    assert_eq!(r.observe(unknown, 1), Err(MetricError::UnknownInstrument));
    assert!(r.get(unknown).is_none());
}

#[test]
fn the_last_set_wins() {
    let (mut r, _, g, _) = three();
    r.set(g, 10).unwrap();
    r.set(g, -7).unwrap();
    match &r.get(g).unwrap().value {
        Value::Gauge(v) => assert_eq!(v.get(), -7),
        _ => panic!("no gauge"),
    }
}

#[test]
fn observations_reach_the_histogram() {
    let (mut r, _, _, h) = three();
    for v in [1u64, 3, 7, 30] {
        r.observe(h, v).unwrap();
    }
    match &r.get(h).unwrap().value {
        Value::Histogram(x) => {
            assert_eq!(x.buckets, vec![1, 2, 3]);
            assert_eq!(x.count, 4);
            assert_eq!(x.sum, 41);
        },
        _ => panic!("no histogram"),
    }
}

#[test]
fn snapshot_is_a_copy_of_every_instrument() {
    let (mut r, c, g, h) = three();
    r.increment(c, 2).unwrap();
    r.set(g, -9).unwrap();
    r.observe(h, 4).unwrap();
    let snap = r.snapshot();
    r.increment(c, 1).unwrap();
    assert_eq!(snap.len(), 3);
    assert_eq!(snap[0].name, b"jobs".to_vec());
    assert_eq!(snap[0].help, b"Jobs done".to_vec());
    assert_eq!(snap[0].labels.len(), 1);
    assert_eq!(snap[0].labels[0].name, b"handler".to_vec());
    assert_eq!(snap[0].labels[0].value, b"all".to_vec());
    assert!(matches!(&snap[0].value, Value::Counter(x) if x.get() == 2));
    assert_eq!(snap[1].name, b"balance".to_vec());
    assert!(matches!(&snap[1].value, Value::Gauge(x) if x.get() == -9));
    match &snap[2].value {
        Value::Histogram(x) => {
            assert_eq!(x.bounds, vec![1, 5, 25]);
            assert_eq!(x.buckets, vec![0, 1, 1]);
            assert_eq!((x.count, x.sum), (1, 4));
        },
        _ => panic!("no histogram"),
    }
    assert_eq!(counter_of(&r, c), 3);
}

#[test]
fn a_registry_with_a_name_twice_is_not_well_formed() {
    let (mut r, _, _, _) = three();
    let copy = r.get(InstrumentId(1)).unwrap().duplicate();
    r.instruments.push(copy);
    assert!(!r.is_well_formed());
}

#[test]
fn a_value_takes_the_updates_of_its_kind_only() {
    let (r, c, g, h) = three();
    let mut counter = r.get(c).unwrap().value.duplicate();
    let mut gauge = r.get(g).unwrap().value.duplicate();
    let mut histogram = r.get(h).unwrap().value.duplicate();
    assert_eq!(counter.increment(2), Ok(()));
    assert_eq!(counter.increment(-2), Err(MetricError::InvalidValue));
    assert_eq!(counter.set(1), Err(MetricError::WrongKind));
    assert_eq!(counter.observe(1), Err(MetricError::WrongKind));
    assert!(matches!(&counter, Value::Counter(x) if x.get() == 2));
    assert_eq!(gauge.set(-4), Ok(()));
    assert_eq!(gauge.increment(1), Err(MetricError::WrongKind));
    assert_eq!(gauge.observe(1), Err(MetricError::WrongKind));
    assert!(matches!(&gauge, Value::Gauge(x) if x.get() == -4));
    assert_eq!(histogram.observe(5), Ok(()));
    assert_eq!(histogram.increment(1), Err(MetricError::WrongKind));
    assert_eq!(histogram.set(1), Err(MetricError::WrongKind));
    assert!(matches!(&histogram, Value::Histogram(x) if x.buckets == vec![0, 1, 1] && x.sum == 5));
    assert!(histogram.is_well_formed());
}

#[test]
fn labels_are_a_set() {
    let mut r = Registry::new();
    r.register(b"m".to_vec(), Kind::Counter, vec![], vec![label("a", "1"), label("b", "2")]).unwrap();
    let swapped = r.register(b"m".to_vec(), Kind::Counter, vec![], vec![label("b", "2"), label("a", "1")]);
    assert_eq!(swapped, Err(MetricError::DuplicateMetric));
    let fewer = r.register(b"m".to_vec(), Kind::Counter, vec![], vec![label("a", "1")]);
    assert_eq!(fewer, Ok(InstrumentId(1)));
    let other = r.register(b"m".to_vec(), Kind::Counter, vec![], vec![label("a", "2"), label("b", "1")]);
    assert_eq!(other, Ok(InstrumentId(2)));
    assert!(r.is_well_formed());
}
