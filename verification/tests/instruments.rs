use metrics_exporter::metrics::{is_ascending, Counter, Gauge, Histogram, MetricError};

#[test]
fn counter_ends_at_the_sum_of_its_increments() {
    let mut c = Counter::new();
    let amounts: [i64; 5] = [3, 0, 7, 1, 31];
    for a in amounts {
        assert_eq!(c.increment(a), Ok(()));
    }
    assert_eq!(c.get(), 42);
}

#[test]
fn counter_ends_at_the_same_value_in_any_order() {
    let mut a = Counter::new();
    let mut b = Counter::new();
    for x in [5i64, 9, 2] {
        a.increment(x).unwrap();
    }
    for x in [2i64, 5, 9] {
        b.increment(x).unwrap();
    }
    assert_eq!(a, b);
    assert_eq!(a.get(), 16);
}

#[test]
fn counter_refuses_a_negative_amount_and_keeps_its_value() {
    let mut c = Counter::new();
    c.increment(4).unwrap();
    assert_eq!(c.increment(-1), Err(MetricError::InvalidValue));
    assert_eq!(c.increment(i64::MIN), Err(MetricError::InvalidValue));
    assert_eq!(c.get(), 4);
}

#[test]
fn counter_refuses_to_leave_its_range() {
    let mut c = Counter { value: u64::MAX - 1 };
    assert_eq!(c.increment(2), Err(MetricError::Overflow));
    assert_eq!(c.get(), u64::MAX - 1);
    assert_eq!(c.increment(1), Ok(()));
    assert_eq!(c.get(), u64::MAX);
    assert_eq!(c.increment(0), Ok(()));
    assert_eq!(c.increment(1), Err(MetricError::Overflow));
}

#[test]
fn ten_thousand_increments_by_one_give_ten_thousand() {
    let mut c = Counter::new();
    for _caller in 0..10 {
        for _ in 0..1000 {
            c.increment(1).unwrap();
        }
    }
    assert_eq!(c.get(), 10_000);
}

#[test]
fn gauge_holds_the_last_value_set() {
    let mut g = Gauge::new();
    assert_eq!(g.get(), 0);
    g.set(17);
    g.set(-3);
    g.set(i64::MAX);
    g.set(5);
    assert_eq!(g.get(), 5);
    g.set(i64::MIN);
    assert_eq!(g.get(), i64::MIN);
}

#[test]
fn histogram_counts_sums_and_fills_its_buckets() {
    let mut h = Histogram::new(vec![1, 5, 25]).unwrap();
    for v in [0u64, 1, 2, 5, 6, 25, 26, 1000] {
        assert_eq!(h.observe(v), Ok(()));
    }
    assert_eq!(h.count, 8);
    assert_eq!(h.sum, 1065);
    assert_eq!(h.buckets, vec![2, 4, 6]);
    assert_eq!(h.bounds, vec![1, 5, 25]);
    assert!(h.is_well_formed());
}

#[test]
fn empty_histogram_is_all_zero() {
    let h = Histogram::new(vec![1, 5, 25, 100]).unwrap();
    assert_eq!(h.count, 0);
    assert_eq!(h.sum, 0);
    assert_eq!(h.buckets, vec![0, 0, 0, 0]);
}

#[test]
fn histogram_without_bounds_still_counts() {
    let mut h = Histogram::new(vec![]).unwrap();
    h.observe(9).unwrap();
    assert_eq!(h.count, 1);
    assert_eq!(h.sum, 9);
    assert!(h.buckets.is_empty());
}

#[test]
fn histogram_needs_strictly_ascending_bounds() {
    assert!(Histogram::new(vec![1, 1]).is_none());
    assert!(Histogram::new(vec![5, 1]).is_none());
    assert!(Histogram::new(vec![1, 5, 4]).is_none());
    assert!(Histogram::new(vec![7]).is_some());
    assert!(is_ascending(&vec![1, 2, 3]));
    assert!(!is_ascending(&vec![1, 3, 3]));
}

#[test]
fn histogram_refuses_a_sum_out_of_range_and_stays_as_it_was() {
    let mut h = Histogram::new(vec![10]).unwrap();
    h.observe(u64::MAX - 1).unwrap();
    assert_eq!(h.observe(2), Err(MetricError::Overflow));
    assert_eq!(h.count, 1);
    assert_eq!(h.sum, u64::MAX - 1);
    assert_eq!(h.buckets, vec![0]);
    assert_eq!(h.observe(1), Ok(()));
    assert_eq!(h.buckets, vec![1]);
    assert_eq!(h.sum, u64::MAX);
}

#[test]
fn histogram_with_a_bucket_above_its_count_is_not_well_formed() {
    let h = Histogram { bounds: vec![1, 2], buckets: vec![0, 3], count: 2, sum: 4 };
    assert!(!h.is_well_formed());
    let h = Histogram { bounds: vec![1, 2], buckets: vec![0], count: 2, sum: 4 };
    assert!(!h.is_well_formed());
}
