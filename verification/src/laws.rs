//! What holds of the instruments over whole sequences of updates.

use vstd::prelude::*;
use vstd::seq_lib::{to_multiset_contains, to_multiset_len, to_multiset_remove};
use crate::exposition::{
    bucket_line, bucket_suffix, count_suffix, decimal, decimal_value, exposition, header_lines,
    histogram_tail, inf_text, instrument_text, le_name, sample_line, sum_suffix, value_lines,
};
use crate::registry::{InstrumentModel, ValueModel};
use crate::metrics::{
    all_non_negative, count_at_most, counter_after, empty_model, gauge_after, gauge_fold,
    observe_all, sum_of, total_of,
};

verus! {

/// The sum of a concatenation is the sum of the two sums.
pub proof fn lemma_sum_of_concat(a: Seq<int>, b: Seq<int>)
    ensures
        sum_of(a + b) == sum_of(a) + sum_of(b),
    decreases b.len(),
{
    if b.len() == 0 {
        assert(a + b =~= a);
    } else {
        assert((a + b).drop_last() =~= a + b.drop_last());
        assert((a + b).last() == b.last());
        lemma_sum_of_concat(a, b.drop_last());
    }
}

/// A sum of amounts of which none is negative is not negative.
pub proof fn lemma_sum_of_non_negative(amounts: Seq<int>)
    requires
        all_non_negative(amounts),
    ensures
        sum_of(amounts) >= 0,
    decreases amounts.len(),
{
    if amounts.len() > 0 {
        lemma_sum_of_non_negative(amounts.drop_last());
    }
}

/// After any sequence of increments by non-negative amounts, a counter
/// stands at its starting value plus the sum of the amounts; from zero, at
/// the sum itself. It never stands below where it started.
pub proof fn lemma_counter_is_sum(start: nat, amounts: Seq<int>)
    requires
        all_non_negative(amounts),
    ensures
        counter_after(start, amounts) == start + sum_of(amounts),
        counter_after(0, amounts) == sum_of(amounts),
        counter_after(start, amounts) >= start,
    decreases amounts.len(),
{
    lemma_sum_of_non_negative(amounts);
    if amounts.len() > 0 {
        lemma_sum_of_non_negative(amounts.drop_last());
        lemma_counter_is_sum(start, amounts.drop_last());
        lemma_counter_is_sum(0, amounts.drop_last());
    }
}

/// The order in which two batches of non-negative increments reach a
/// counter does not change where it ends.
pub proof fn lemma_counter_order_independent(start: nat, a: Seq<int>, b: Seq<int>)
    requires
        all_non_negative(a),
        all_non_negative(b),
    ensures
        counter_after(start, a + b) == counter_after(start, b + a),
        counter_after(start, a + b) == counter_after(counter_after(start, a), b),
{
    lemma_sum_of_concat(a, b);
    lemma_sum_of_concat(b, a);
    lemma_counter_is_sum(start, a);
    lemma_counter_is_sum(start, a + b);
    lemma_counter_is_sum(start, b + a);
    lemma_counter_is_sum(counter_after(start, a), b);
}

/// Taking one amount out of a sequence takes it out of the sum.
pub proof fn lemma_sum_of_remove(a: Seq<int>, k: int)
    requires
        0 <= k < a.len(),
    ensures
        sum_of(a) == sum_of(a.remove(k)) + a[k],
{
    let left = a.take(k);
    let one = seq![a[k]];
    let right = a.skip(k + 1);
    assert(a =~= left + one + right);
    assert(a.remove(k) =~= left + right);
    assert(one.drop_last() =~= Seq::<int>::empty());
    assert(sum_of(one.drop_last()) == 0);
    assert(sum_of(one) == a[k]);
    lemma_sum_of_concat(left, one);
    lemma_sum_of_concat(left + one, right);
    lemma_sum_of_concat(left, right);
}

/// Two sequences that hold the same amounts, each as often as the other,
/// have the same sum.
pub proof fn lemma_sum_of_rearranged(a: Seq<int>, b: Seq<int>)
    requires
        a.to_multiset() == b.to_multiset(),
    ensures
        sum_of(a) == sum_of(b),
    decreases a.len(),
{
    to_multiset_len(a);
    to_multiset_len(b);
    if a.len() > 0 {
        let x = a.last();
        let last = a.len() - 1;
        assert(a[last] == x);
        assert(a.contains(x));
        to_multiset_contains(a, x);
        to_multiset_contains(b, x);
        assert(b.contains(x));
        let k = choose|k: int| 0 <= k < b.len() && b[k] == x;
        to_multiset_remove(a, last);
        to_multiset_remove(b, k);
        assert(a.remove(last) =~= a.drop_last());
        lemma_sum_of_rearranged(a.drop_last(), b.remove(k));
        lemma_sum_of_remove(b, k);
    }
}

/// A counter ends at the same value in whatever order the same
/// non-negative increments reach it: increments commute.
pub proof fn lemma_counter_any_order(start: nat, a: Seq<int>, b: Seq<int>)
    requires
        all_non_negative(a),
        a.to_multiset() == b.to_multiset(),
    ensures
        all_non_negative(b),
        counter_after(start, a) == counter_after(start, b),
{
    assert forall|i: int| 0 <= i < b.len() implies b[i] >= 0 by {
        assert(b.contains(b[i]));
        to_multiset_contains(b, b[i]);
        to_multiset_contains(a, b[i]);
        let j = choose|j: int| 0 <= j < a.len() && a[j] == b[i];
        assert(a[j] >= 0);
    }
    lemma_sum_of_rearranged(a, b);
    lemma_counter_is_sum(start, a);
    lemma_counter_is_sum(start, b);
}

/// `n` increments by one, from however many callers and in whatever order
/// they arrive, leave a counter that started at zero at exactly `n`.
pub proof fn lemma_counter_of_ones(n: nat)
    ensures
        all_non_negative(Seq::new(n, |i: int| 1int)),
        counter_after(0, Seq::new(n, |i: int| 1int)) == n,
        sum_of(Seq::new(n, |i: int| 1int)) == n,
    decreases n,
{
    let ones = Seq::new(n, |i: int| 1int);
    if n > 0 {
        lemma_counter_of_ones((n - 1) as nat);
        assert(ones.drop_last() =~= Seq::new((n - 1) as nat, |i: int| 1int));
    }
    lemma_counter_is_sum(0, ones);
}

/// After any sequence of sets, a gauge holds the last value set; where
/// nothing was set, the value it started with.
pub proof fn lemma_gauge_is_last(start: int, sets: Seq<int>)
    ensures
        gauge_fold(start, sets) == gauge_after(start, sets),
        sets.len() > 0 ==> gauge_fold(start, sets) == sets.last(),
{
}

/// After any sequence of observations, an empty histogram's count is their
/// number, its sum their total, and each bucket holds the number of
/// observations at or under its bound.
pub proof fn lemma_histogram_counts(bounds: Seq<u64>, obs: Seq<u64>)
    ensures
        observe_all(empty_model(bounds), obs).bounds == bounds,
        observe_all(empty_model(bounds), obs).count == obs.len(),
        observe_all(empty_model(bounds), obs).sum == total_of(obs),
        observe_all(empty_model(bounds), obs).buckets.len() == bounds.len(),
        forall|i: int|
            0 <= i < bounds.len() ==> #[trigger] observe_all(empty_model(bounds), obs).buckets[i]
                == count_at_most(obs, bounds[i]),
    decreases obs.len(),
{
    if obs.len() > 0 {
        lemma_histogram_counts(bounds, obs.drop_last());
    }
}

/// The digits written for a number are decimal digits, at least one,
/// without a leading zero but for zero itself, and read back as the number.
pub proof fn lemma_decimal_reads_back(n: nat)
    ensures
        decimal_value(decimal(n)) == n,
        decimal(n).len() >= 1,
        forall|i: int| 0 <= i < decimal(n).len() ==> 48 <= #[trigger] decimal(n)[i] <= 57,
        n > 0 ==> decimal(n)[0] != 48,
    decreases n,
{
    if n < 10 {
        assert(decimal(n).drop_last() =~= Seq::<u8>::empty());
        assert(decimal_value(decimal(n).drop_last()) == 0);
    } else {
        lemma_decimal_reads_back(n / 10);
        assert(decimal(n).drop_last() =~= decimal(n / 10));
        assert(decimal(n)[0] == decimal(n / 10)[0]);
    }
}

/// The exposition of instruments written one after the other is the
/// exposition of the first followed by that of the rest.
pub proof fn lemma_exposition_concat(a: Seq<InstrumentModel>, b: Seq<InstrumentModel>)
    ensures
        exposition(a + b) == exposition(a) + exposition(b),
    decreases b.len(),
{
    if b.len() == 0 {
        assert(a + b =~= a);
        assert(exposition(a) + exposition(b) =~= exposition(a));
    } else {
        assert((a + b).drop_last() =~= a + b.drop_last());
        assert((a + b).last() == b.last());
        lemma_exposition_concat(a, b.drop_last());
        assert(exposition(a + b) =~= exposition(a) + exposition(b));
    }
}

/// Every instrument has its help line, its type line and its sample lines
/// in the exposition, whole, and in the order of registration: behind the
/// lines of those registered before it and before the lines of those
/// registered after it.
pub proof fn lemma_exposition_holds_each(s: Seq<InstrumentModel>, i: int)
    requires
        0 <= i < s.len(),
    ensures
        exposition(s) == exposition(s.take(i)) + instrument_text(s[i]) + exposition(s.skip(i + 1)),
        instrument_text(s[i]) == header_lines(s[i]) + value_lines(
            s[i].name,
            s[i].labels,
            s[i].value,
        ),
{
    assert(s =~= s.take(i + 1) + s.skip(i + 1));
    lemma_exposition_concat(s.take(i + 1), s.skip(i + 1));
    assert(s.take(i + 1).drop_last() =~= s.take(i));
    assert(s.take(i + 1).last() == s[i]);
}

/// An instrument that was never updated is exposed at zero: a counter and a
/// gauge with the value `0`, a histogram with `0` in every bucket, in the
/// bucket without bound, in the sum and in the count.
pub proof fn lemma_untouched_is_zero(
    name: Seq<u8>,
    pairs: Seq<(Seq<u8>, Seq<u8>)>,
    bounds: Seq<u64>,
)
    ensures
        value_lines(name, pairs, ValueModel::Counter(0)) == sample_line(name, pairs, seq![48u8]),
        value_lines(name, pairs, ValueModel::Gauge(0)) == sample_line(name, pairs, seq![48u8]),
        forall|k: int|
            0 <= k < bounds.len() ==> #[trigger] bucket_line(name, pairs, empty_model(bounds), k)
                == sample_line(
                name + bucket_suffix(),
                pairs.push((le_name(), decimal(bounds[k] as nat))),
                seq![48u8],
            ),
        histogram_tail(name, pairs, empty_model(bounds)) == sample_line(
            name + bucket_suffix(),
            pairs.push((le_name(), inf_text())),
            seq![48u8],
        ) + sample_line(name + sum_suffix(), pairs, seq![48u8]) + sample_line(
            name + count_suffix(),
            pairs,
            seq![48u8],
        ),
{
    assert(decimal(0) =~= seq![48u8]);
}

} // verus!
