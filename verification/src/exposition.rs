//! The text exposition of a registry: for each instrument a help line, a
//! type line and its sample lines.

use vstd::prelude::*;
use crate::bytes::push_bytes;
use crate::metrics::{Histogram, HistogramModel};
use crate::registry::{
    labels_model, Instrument, InstrumentModel, Label, Registry, Value, ValueModel,
};

verus! {

/// The opening of a help line: `# HELP ` with its trailing space.
pub open spec fn help_prefix() -> Seq<u8> {
    seq![35u8, 32u8, 72u8, 69u8, 76u8, 80u8, 32u8]
}

/// The opening of a type line: `# TYPE ` with its trailing space.
pub open spec fn type_prefix() -> Seq<u8> {
    seq![35u8, 32u8, 84u8, 89u8, 80u8, 69u8, 32u8]
}

/// The type word of a counter.
pub open spec fn counter_word() -> Seq<u8> {
    seq![99u8, 111u8, 117u8, 110u8, 116u8, 101u8, 114u8]
}

/// The type word of a gauge.
pub open spec fn gauge_word() -> Seq<u8> {
    seq![103u8, 97u8, 117u8, 103u8, 101u8]
}

/// The type word of a histogram.
pub open spec fn histogram_word() -> Seq<u8> {
    seq![104u8, 105u8, 115u8, 116u8, 111u8, 103u8, 114u8, 97u8, 109u8]
}

/// What follows the name on a bucket line.
pub open spec fn bucket_suffix() -> Seq<u8> {
    seq![95u8, 98u8, 117u8, 99u8, 107u8, 101u8, 116u8]
}

/// What follows the name on the line of the sum.
pub open spec fn sum_suffix() -> Seq<u8> {
    seq![95u8, 115u8, 117u8, 109u8]
}

/// What follows the name on the line of the count.
pub open spec fn count_suffix() -> Seq<u8> {
    seq![95u8, 99u8, 111u8, 117u8, 110u8, 116u8]
}

/// The name of the label that carries a bucket's bound.
pub open spec fn le_name() -> Seq<u8> {
    seq![108u8, 101u8]
}

/// The bound of the bucket that holds every observation.
pub open spec fn inf_text() -> Seq<u8> {
    seq![43u8, 73u8, 110u8, 102u8]
}

/// The media type of the exposition text.
pub open spec fn content_type() -> Seq<u8> {
    seq![116u8, 101u8, 120u8, 116u8, 47u8, 112u8, 108u8, 97u8, 105u8, 110u8, 59u8, 32u8, 118u8, 101u8, 114u8, 115u8, 105u8, 111u8, 110u8, 61u8, 48u8, 46u8, 48u8, 46u8, 52u8]
}

/// The decimal digits of `n`, without leading zeros.
pub open spec fn decimal(n: nat) -> Seq<u8>
    decreases n,
{
    if n < 10 {
        seq![(48 + n) as u8]
    } else {
        decimal(n / 10).push((48 + n % 10) as u8)
    }
}

/// The number that a string of decimal digits stands for.
pub open spec fn decimal_value(digits: Seq<u8>) -> nat
    decreases digits.len(),
{
    if digits.len() == 0 {
        0
    } else {
        decimal_value(digits.drop_last()) * 10 + (digits.last() - 48) as nat
    }
}

/// The decimal text of `v`, with a minus sign where it is negative.
pub open spec fn signed_decimal(v: int) -> Seq<u8> {
    if v < 0 {
        seq![45u8] + decimal((-v) as nat)
    } else {
        decimal(v as nat)
    }
}

/// How one byte of a help text or of a label value is written: a
/// backslash as two, a line feed as backslash and `n`, and, where `quoted`
/// says that the text stands in double quotes, a double quote behind a
/// backslash. Every other byte stands for itself.
pub open spec fn escaped_byte(b: u8, quoted: bool) -> Seq<u8> {
    if b == 92 {
        seq![92u8, 92u8]
    } else if b == 10 {
        seq![92u8, 110u8]
    } else if quoted && b == 34 {
        seq![92u8, 34u8]
    } else {
        seq![b]
    }
}

/// A text with each of its bytes written as `escaped_byte` says.
pub open spec fn escaped(s: Seq<u8>, quoted: bool) -> Seq<u8>
    decreases s.len(),
{
    if s.len() == 0 {
        Seq::empty()
    } else {
        escaped(s.drop_last(), quoted) + escaped_byte(s.last(), quoted)
    }
}

/// One label: its name, `=`, and its escaped value in double quotes.
pub open spec fn pair_text(p: (Seq<u8>, Seq<u8>)) -> Seq<u8> {
    p.0 + seq![61u8, 34u8] + escaped(p.1, true) + seq![34u8]
}

/// The labels, separated by commas.
pub open spec fn pairs_text(pairs: Seq<(Seq<u8>, Seq<u8>)>) -> Seq<u8>
    decreases pairs.len(),
{
    if pairs.len() == 0 {
        Seq::empty()
    } else if pairs.len() == 1 {
        pair_text(pairs[0])
    } else {
        pairs_text(pairs.drop_last()) + seq![44u8] + pair_text(pairs.last())
    }
}

/// The labels in braces; nothing at all where there is no label.
pub open spec fn label_block(pairs: Seq<(Seq<u8>, Seq<u8>)>) -> Seq<u8> {
    if pairs.len() == 0 {
        Seq::empty()
    } else {
        seq![123u8] + pairs_text(pairs) + seq![125u8]
    }
}

/// One sample line: name, labels, a space, the value and a line feed.
pub open spec fn sample_line(name: Seq<u8>, pairs: Seq<(Seq<u8>, Seq<u8>)>, value: Seq<u8>) -> Seq<
    u8,
> {
    name + label_block(pairs) + seq![32u8] + value + seq![10u8]
}

/// The line of the bucket at `k`: the labels are followed by the bound
/// under `le`, the value is the bucket's count.
pub open spec fn bucket_line(
    name: Seq<u8>,
    pairs: Seq<(Seq<u8>, Seq<u8>)>,
    h: HistogramModel,
    k: int,
) -> Seq<u8> {
    sample_line(
        name + bucket_suffix(),
        pairs.push((le_name(), decimal(h.bounds[k] as nat))),
        decimal(h.buckets[k]),
    )
}

/// The lines of the first `k` buckets, in the order of their bounds.
pub open spec fn bucket_lines(
    name: Seq<u8>,
    pairs: Seq<(Seq<u8>, Seq<u8>)>,
    h: HistogramModel,
    k: nat,
) -> Seq<u8>
    decreases k,
{
    if k == 0 {
        Seq::empty()
    } else {
        bucket_lines(name, pairs, h, (k - 1) as nat) + bucket_line(name, pairs, h, k - 1)
    }
}

/// What closes a histogram: the bucket without bound, the sum, the count.
pub open spec fn histogram_tail(
    name: Seq<u8>,
    pairs: Seq<(Seq<u8>, Seq<u8>)>,
    h: HistogramModel,
) -> Seq<u8> {
    sample_line(name + bucket_suffix(), pairs.push((le_name(), inf_text())), decimal(h.count))
        + sample_line(name + sum_suffix(), pairs, decimal(h.sum)) + sample_line(
        name + count_suffix(),
        pairs,
        decimal(h.count),
    )
}

/// The sample lines of an instrument: one for a counter or a gauge; for a
/// histogram one for each bucket, then its closing lines.
pub open spec fn value_lines(name: Seq<u8>, pairs: Seq<(Seq<u8>, Seq<u8>)>, value: ValueModel) -> Seq<
    u8,
> {
    match value {
        ValueModel::Counter(n) => sample_line(name, pairs, decimal(n)),
        ValueModel::Gauge(v) => sample_line(name, pairs, signed_decimal(v)),
        ValueModel::Histogram(h) => bucket_lines(name, pairs, h, h.bounds.len()) + histogram_tail(
            name,
            pairs,
            h,
        ),
    }
}

/// The type word of an instrument.
pub open spec fn kind_word(value: ValueModel) -> Seq<u8> {
    match value {
        ValueModel::Counter(_) => counter_word(),
        ValueModel::Gauge(_) => gauge_word(),
        ValueModel::Histogram(_) => histogram_word(),
    }
}

/// The help line and the type line of an instrument.
pub open spec fn header_lines(m: InstrumentModel) -> Seq<u8> {
    help_prefix() + m.name + seq![32u8] + escaped(m.help, false) + seq![10u8] + type_prefix() + m.name + seq![32u8]
        + kind_word(m.value) + seq![10u8]
}

/// All the lines of one instrument.
pub open spec fn instrument_text(m: InstrumentModel) -> Seq<u8> {
    header_lines(m) + value_lines(m.name, m.labels, m.value)
}

/// The exposition of the instruments, in the order of their registration.
pub open spec fn exposition(s: Seq<InstrumentModel>) -> Seq<u8>
    decreases s.len(),
{
    if s.len() == 0 {
        Seq::empty()
    } else {
        exposition(s.drop_last()) + instrument_text(s.last())
    }
}

/// The labels with, where `has_le` says so, the bound `le` behind them.
pub open spec fn with_bound(pairs: Seq<(Seq<u8>, Seq<u8>)>, le: Seq<u8>, has_le: bool) -> Seq<
    (Seq<u8>, Seq<u8>),
> {
    if has_le {
        pairs.push((le_name(), le))
    } else {
        pairs
    }
}

/// What one more label adds to the text of the labels before it.
pub proof fn lemma_pairs_text_push(pairs: Seq<(Seq<u8>, Seq<u8>)>, p: (Seq<u8>, Seq<u8>))
    ensures
        pairs_text(pairs.push(p)) == if pairs.len() == 0 {
            pair_text(p)
        } else {
            pairs_text(pairs) + seq![44u8] + pair_text(p)
        },
{
    assert(pairs.push(p).drop_last() =~= pairs);
}

/// Appends the decimal digits of `n`.
pub fn push_decimal(out: &mut Vec<u8>, n: u64)
    ensures
        final(out)@ == old(out)@ + decimal(n as nat),
    decreases n,
{
    if n >= 10 {
        push_decimal(out, n / 10);
    }
    let d: u8 = (n % 10) as u8;
    out.push(48 + d);
    assert(out@ =~= old(out)@ + decimal(n as nat));
}

/// Appends the decimal text of `v`.
pub fn push_signed_decimal(out: &mut Vec<u8>, v: i64)
    ensures
        final(out)@ == old(out)@ + signed_decimal(v as int),
{
    if v < 0 {
        out.push(45);
        let m: u64 = if v == i64::MIN {
            9223372036854775808u64
        } else {
            (-v) as u64
        };
        push_decimal(out, m);
        assert(out@ =~= old(out)@ + signed_decimal(v as int));
    } else {
        push_decimal(out, v as u64);
    }
}

/// Appends a text, escaped.
pub fn push_escaped(out: &mut Vec<u8>, s: &[u8], quoted: bool)
    ensures
        final(out)@ == old(out)@ + escaped(s@, quoted),
{
    let mut i: usize = 0;
    while i < s.len()
        invariant
            i <= s@.len(),
            out@ == old(out)@ + escaped(s@.take(i as int), quoted),
        decreases s@.len() - i,
    {
        let b: u8 = s[i];
        if b == 92 {
            out.push(92);
            out.push(92);
        } else if b == 10 {
            out.push(92);
            out.push(110);
        } else if quoted && b == 34 {
            out.push(92);
            out.push(34);
        } else {
            out.push(b);
        }
        proof {
            assert(s@.take(i + 1).drop_last() =~= s@.take(i as int));
            assert(s@.take(i + 1).last() == b);
            assert(out@ =~= old(out)@ + escaped(s@.take(i + 1), quoted));
        }
        i += 1;
    }
    assert(s@.take(s@.len() as int) =~= s@);
}

/// Appends one label.
pub fn push_pair(out: &mut Vec<u8>, name: &[u8], value: &[u8])
    ensures
        final(out)@ == old(out)@ + pair_text((name@, value@)),
{
    push_bytes(out, name);
    out.push(61);
    out.push(34);
    push_escaped(out, value, true);
    out.push(34);
    assert(out@ =~= old(out)@ + pair_text((name@, value@)));
}

/// Appends the labels in braces, with the bound `le` behind them where
/// `has_le` says so.
pub fn push_label_block(out: &mut Vec<u8>, labels: &Vec<Label>, le: &[u8], has_le: bool)
    ensures
        final(out)@ == old(out)@ + label_block(with_bound(labels_model(labels@), le@, has_le)),
{
    let n: usize = labels.len();
    if n == 0 && !has_le {
        assert(out@ =~= old(out)@ + label_block(with_bound(labels_model(labels@), le@, has_le)));
        return ;
    }
    let ghost pairs = labels_model(labels@);
    out.push(123);
    let mut i: usize = 0;
    while i < n
        invariant
            i <= n,
            n == labels@.len(),
            pairs == labels_model(labels@),
            out@ == old(out)@ + seq![123u8] + pairs_text(pairs.take(i as int)),
        decreases n - i,
    {
        if i > 0 {
            out.push(44);
        }
        push_pair(out, labels[i].name.as_slice(), labels[i].value.as_slice());
        proof {
            assert(pairs.take(i + 1) =~= pairs.take(i as int).push(pairs[i as int]));
            lemma_pairs_text_push(pairs.take(i as int), pairs[i as int]);
            assert(out@ =~= old(out)@ + seq![123u8] + pairs_text(pairs.take(i + 1)));
        }
        i += 1;
    }
    assert(pairs.take(n as int) =~= pairs);
    if has_le {
        if n > 0 {
            out.push(44);
        }
        let word: [u8; 2] = [108, 101];
        assert(word@ =~= le_name());
        push_pair(out, word.as_slice(), le);
        proof {
            lemma_pairs_text_push(pairs, (le_name(), le@));
        }
    }
    out.push(125);
    assert(out@ =~= old(out)@ + label_block(with_bound(pairs, le@, has_le)));
}

/// Appends a sample line up to and with the space before its value.
pub fn push_sample_head(
    out: &mut Vec<u8>,
    name: &[u8],
    suffix: &[u8],
    labels: &Vec<Label>,
    le: &[u8],
    has_le: bool,
)
    ensures
        final(out)@ == old(out)@ + (name@ + suffix@) + label_block(
            with_bound(labels_model(labels@), le@, has_le),
        ) + seq![32u8],
{
    push_bytes(out, name);
    push_bytes(out, suffix);
    push_label_block(out, labels, le, has_le);
    out.push(32);
    assert(out@ =~= old(out)@ + (name@ + suffix@) + label_block(
        with_bound(labels_model(labels@), le@, has_le),
    ) + seq![32u8]);
}

/// Appends a whole sample line whose value is the number `value`.
pub fn push_sample(
    out: &mut Vec<u8>,
    name: &[u8],
    suffix: &[u8],
    labels: &Vec<Label>,
    le: &[u8],
    has_le: bool,
    value: u64,
)
    ensures
        final(out)@ == old(out)@ + sample_line(
            name@ + suffix@,
            with_bound(labels_model(labels@), le@, has_le),
            decimal(value as nat),
        ),
{
    push_sample_head(out, name, suffix, labels, le, has_le);
    push_decimal(out, value);
    out.push(10);
    assert(out@ =~= old(out)@ + sample_line(
        name@ + suffix@,
        with_bound(labels_model(labels@), le@, has_le),
        decimal(value as nat),
    ));
}

/// Appends the sample lines of a histogram.
pub fn push_histogram(out: &mut Vec<u8>, name: &[u8], labels: &Vec<Label>, h: &Histogram)
    requires
        h.wf(),
    ensures
        final(out)@ == old(out)@ + value_lines(
            name@,
            labels_model(labels@),
            ValueModel::Histogram(h@),
        ),
{
    let ghost pairs = labels_model(labels@);
    let none: [u8; 0] = [];
    assert(none@ =~= Seq::<u8>::empty());
    let bucket: [u8; 7] = [95, 98, 117, 99, 107, 101, 116];
    assert(bucket@ =~= bucket_suffix());
    let n: usize = h.bounds.len();
    let mut k: usize = 0;
    while k < n
        invariant
            k <= n,
            n == h.bounds@.len(),
            n == h.buckets@.len(),
            pairs == labels_model(labels@),
            bucket@ == bucket_suffix(),
            out@ == old(out)@ + bucket_lines(name@, pairs, h@, k as nat),
        decreases n - k,
    {
        let mut le: Vec<u8> = Vec::new();
        push_decimal(&mut le, h.bounds[k]);
        assert(le@ =~= decimal(h.bounds@[k as int] as nat));
        push_sample(out, name, bucket.as_slice(), labels, le.as_slice(), true, h.buckets[k]);
        proof {
            assert(h@.buckets[k as int] == h.buckets@[k as int] as nat);
            assert(out@ =~= old(out)@ + bucket_lines(name@, pairs, h@, (k + 1) as nat));
        }
        k += 1;
    }
    let inf: [u8; 4] = [43, 73, 110, 102];
    assert(inf@ =~= inf_text());
    push_sample(out, name, bucket.as_slice(), labels, inf.as_slice(), true, h.count);
    let sum: [u8; 4] = [95, 115, 117, 109];
    assert(sum@ =~= sum_suffix());
    push_sample(out, name, sum.as_slice(), labels, none.as_slice(), false, h.sum);
    let count: [u8; 6] = [95, 99, 111, 117, 110, 116];
    assert(count@ =~= count_suffix());
    push_sample(out, name, count.as_slice(), labels, none.as_slice(), false, h.count);
    assert(out@ =~= old(out)@ + value_lines(name@, pairs, ValueModel::Histogram(h@)));
}

/// Appends the type word of a value.
pub fn push_kind_word(out: &mut Vec<u8>, value: &Value)
    ensures
        final(out)@ == old(out)@ + kind_word(value@),
{
    match value {
        Value::Counter(_) => {
            let word: [u8; 7] = [99, 111, 117, 110, 116, 101, 114];
            assert(word@ =~= counter_word());
            push_bytes(out, word.as_slice());
        },
        Value::Gauge(_) => {
            let word: [u8; 5] = [103, 97, 117, 103, 101];
            assert(word@ =~= gauge_word());
            push_bytes(out, word.as_slice());
        },
        Value::Histogram(_) => {
            let word: [u8; 9] = [104, 105, 115, 116, 111, 103, 114, 97, 109];
            assert(word@ =~= histogram_word());
            push_bytes(out, word.as_slice());
        },
    }
}

/// Appends the help line and the type line of an instrument.
pub fn push_header(out: &mut Vec<u8>, ins: &Instrument)
    ensures
        final(out)@ == old(out)@ + header_lines(ins@),
{
    let help: [u8; 7] = [35, 32, 72, 69, 76, 80, 32];
    assert(help@ =~= help_prefix());
    push_bytes(out, help.as_slice());
    push_bytes(out, ins.name.as_slice());
    out.push(32);
    push_escaped(out, ins.help.as_slice(), false);
    out.push(10);
    let kind: [u8; 7] = [35, 32, 84, 89, 80, 69, 32];
    assert(kind@ =~= type_prefix());
    push_bytes(out, kind.as_slice());
    push_bytes(out, ins.name.as_slice());
    out.push(32);
    push_kind_word(out, &ins.value);
    out.push(10);
    assert(out@ =~= old(out)@ + header_lines(ins@));
}

/// Appends all the lines of one instrument.
pub fn push_instrument(out: &mut Vec<u8>, ins: &Instrument)
    requires
        ins.value.wf(),
    ensures
        final(out)@ == old(out)@ + instrument_text(ins@),
{
    push_header(out, ins);
    let none: [u8; 0] = [];
    assert(none@ =~= Seq::<u8>::empty());
    let ghost pairs = labels_model(ins.labels@);
    match &ins.value {
        Value::Counter(c) => {
            push_sample(out, ins.name.as_slice(), none.as_slice(), &ins.labels, none.as_slice(), false, c.value);
            assert(ins.name@ + none@ =~= ins.name@);
        },
        Value::Gauge(g) => {
            push_sample_head(out, ins.name.as_slice(), none.as_slice(), &ins.labels, none.as_slice(), false);
            push_signed_decimal(out, g.value);
            out.push(10);
            assert(ins.name@ + none@ =~= ins.name@);
            assert(out@ =~= old(out)@ + header_lines(ins@) + sample_line(
                ins.name@,
                pairs,
                signed_decimal(g.value as int),
            ));
        },
        Value::Histogram(h) => {
            push_histogram(out, ins.name.as_slice(), &ins.labels, h);
        },
    }
    assert(out@ =~= old(out)@ + instrument_text(ins@));
}

/// The exposition text of the whole registry.
pub fn encode(registry: &Registry) -> (out: Vec<u8>)
    requires
        registry.wf(),
    ensures
        out@ == exposition(registry@),
{
    let mut out: Vec<u8> = Vec::new();
    let n: usize = registry.instruments.len();
    let mut i: usize = 0;
    while i < n
        invariant
            i <= n,
            n == registry.instruments@.len(),
            registry.wf(),
            out@ == exposition(registry@.take(i as int)),
        decreases n - i,
    {
        push_instrument(&mut out, &registry.instruments[i]);
        proof {
            assert(registry@.take(i + 1).drop_last() =~= registry@.take(i as int));
            assert(registry@.take(i + 1).last() == registry.instruments@[i as int]@);
        }
        i += 1;
    }
    assert(registry@.take(n as int) =~= registry@);
    out
}

} // verus!
