use metrics_exporter::exposition::{encode, push_decimal, push_escaped, push_signed_decimal};
use metrics_exporter::registry::{InstrumentId, Kind, Label, Registry};

fn label(name: &str, value: &str) -> Label {
    Label { name: name.as_bytes().to_vec(), value: value.as_bytes().to_vec() }
}

fn text(r: &Registry) -> String {
    String::from_utf8(encode(r)).unwrap()
}

fn miner() -> Registry {
    let mut r = Registry::new();
    r.register(
        b"staking_miner_submissions_started".to_vec(),
        Kind::Counter,
        b"Number of submissions started".to_vec(),
        vec![label("handler", "all")],
    )
    .unwrap();
    r.register(
        b"staking_miner_mining_duration_ms".to_vec(),
        Kind::Histogram(vec![1, 5, 25, 100]),
        b"The mined solution time in milliseconds.".to_vec(),
        vec![],
    )
    .unwrap();
    r.register(
        b"staking_miner_balance".to_vec(),
        Kind::Gauge,
        b"The balance of the staking miner account".to_vec(),
        vec![label("handler", "all")],
    )
    .unwrap();
    r
}

#[test]
fn an_empty_registry_has_an_empty_exposition() {
    assert_eq!(encode(&Registry::new()), Vec::<u8>::new());
}

#[test]
fn untouched_instruments_are_exposed_at_zero() {
    let expected = "\
# HELP staking_miner_submissions_started Number of submissions started
# TYPE staking_miner_submissions_started counter
staking_miner_submissions_started{handler=\"all\"} 0
# HELP staking_miner_mining_duration_ms The mined solution time in milliseconds.
# TYPE staking_miner_mining_duration_ms histogram
staking_miner_mining_duration_ms_bucket{le=\"1\"} 0
staking_miner_mining_duration_ms_bucket{le=\"5\"} 0
staking_miner_mining_duration_ms_bucket{le=\"25\"} 0
staking_miner_mining_duration_ms_bucket{le=\"100\"} 0
staking_miner_mining_duration_ms_bucket{le=\"+Inf\"} 0
staking_miner_mining_duration_ms_sum 0
staking_miner_mining_duration_ms_count 0
# HELP staking_miner_balance The balance of the staking miner account
# TYPE staking_miner_balance gauge
staking_miner_balance{handler=\"all\"} 0
";
    assert_eq!(text(&miner()), expected);
}

#[test]
fn updates_show_in_the_exposition() {
    let mut r = miner();
    r.increment(InstrumentId(0), 3).unwrap();
    for v in [1u64, 4, 5, 70, 2000] {
        r.observe(InstrumentId(1), v).unwrap();
    }
    r.set(InstrumentId(2), -1250).unwrap();
    let expected = "\
# HELP staking_miner_submissions_started Number of submissions started
# TYPE staking_miner_submissions_started counter
staking_miner_submissions_started{handler=\"all\"} 3
# HELP staking_miner_mining_duration_ms The mined solution time in milliseconds.
# TYPE staking_miner_mining_duration_ms histogram
staking_miner_mining_duration_ms_bucket{le=\"1\"} 1
staking_miner_mining_duration_ms_bucket{le=\"5\"} 3
staking_miner_mining_duration_ms_bucket{le=\"25\"} 3
staking_miner_mining_duration_ms_bucket{le=\"100\"} 4
staking_miner_mining_duration_ms_bucket{le=\"+Inf\"} 5
staking_miner_mining_duration_ms_sum 2080
staking_miner_mining_duration_ms_count 5
# HELP staking_miner_balance The balance of the staking miner account
# TYPE staking_miner_balance gauge
staking_miner_balance{handler=\"all\"} -1250
";
    assert_eq!(text(&r), expected);
}

#[test]
fn labels_are_separated_by_commas_and_the_bound_comes_last() {
    let mut r = Registry::new();
    r.register(b"c".to_vec(), Kind::Counter, b"h".to_vec(), vec![label("a", "1"), label("b", "2"), label("c", "3")])
        .unwrap();
    r.register(b"d".to_vec(), Kind::Histogram(vec![10]), b"".to_vec(), vec![label("a", "1"), label("b", "2")])
        .unwrap();
    r.register(b"e".to_vec(), Kind::Histogram(vec![]), b"none".to_vec(), vec![]).unwrap();
    let expected = "\
# HELP c h
# TYPE c counter
c{a=\"1\",b=\"2\",c=\"3\"} 0
# HELP d 
# TYPE d histogram
d_bucket{a=\"1\",b=\"2\",le=\"10\"} 0
d_bucket{a=\"1\",b=\"2\",le=\"+Inf\"} 0
d_sum{a=\"1\",b=\"2\"} 0
d_count{a=\"1\",b=\"2\"} 0
# HELP e none
# TYPE e histogram
e_bucket{le=\"+Inf\"} 0
e_sum 0
e_count 0
";
    assert_eq!(text(&r), expected);
}

#[test]
fn help_and_label_values_are_escaped() {
    let mut r = Registry::new();
    r.register(
        b"g".to_vec(),
        Kind::Gauge,
        b"a \"b\" c\\d\ne".to_vec(),
        vec![label("k", "x\"y\\z\nw")],
    )
    .unwrap();
    let expected = "# HELP g a \"b\" c\\\\d\\ne\n# TYPE g gauge\ng{k=\"x\\\"y\\\\z\\nw\"} 0\n";
    assert_eq!(text(&r), expected);
}

#[test]
fn escaping_leaves_other_bytes_alone() {
    let mut out = b">".to_vec();
    push_escaped(&mut out, b"plain \"text\"", false);
    assert_eq!(out, b">plain \"text\"".to_vec());
    let mut out = Vec::new();
    push_escaped(&mut out, b"\\\n\"", true);
    assert_eq!(out, b"\\\\\\n\\\"".to_vec());
}

#[test]
fn numbers_are_written_in_decimal() {
    let cases: [(u64, &str); 7] = [
        (0, "0"),
        (9, "9"),
        (10, "10"),
        (99, "99"),
        (100, "100"),
        (1_000_000, "1000000"),
        (u64::MAX, "18446744073709551615"),
    ];
    for (n, want) in cases {
        let mut out = b"x".to_vec();
        push_decimal(&mut out, n);
        assert_eq!(String::from_utf8(out).unwrap(), format!("x{}", want));
    }
}

#[test]
fn signed_numbers_carry_their_sign() {
    let cases: [(i64, &str); 6] = [
        (0, "0"),
        (7, "7"),
        (-7, "-7"),
        (-10, "-10"),
        (i64::MAX, "9223372036854775807"),
        (i64::MIN, "-9223372036854775808"),
    ];
    for (n, want) in cases {
        let mut out = Vec::new();
        push_signed_decimal(&mut out, n);
        assert_eq!(String::from_utf8(out).unwrap(), want);
    }
}
