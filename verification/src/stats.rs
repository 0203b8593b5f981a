//! Sums and extremes of a sample set, and what relates them.
//!
//! A sample is the duration of one repetition in nanoseconds.

use vstd::prelude::*;
use vstd::arithmetic::div_mod::{lemma_div_is_ordered, lemma_div_multiples_vanish};
use vstd::seq_lib::{to_multiset_contains, to_multiset_len, to_multiset_remove};

verus! {

/// Sum of all samples.
pub open spec fn total(s: Seq<u64>) -> nat
    decreases s.len(),
{
    if s.len() == 0 {
        0
    } else {
        total(s.drop_last()) + s.last() as nat
    }
}

/// The smallest sample; 0 for the empty set, which has none.
pub open spec fn least(s: Seq<u64>) -> u64
    decreases s.len(),
{
    if s.len() == 0 {
        0
    } else if s.len() == 1 {
        s[0]
    } else if s.last() < least(s.drop_last()) {
        s.last()
    } else {
        least(s.drop_last())
    }
}

/// The largest sample; 0 for the empty set, which has none.
pub open spec fn greatest(s: Seq<u64>) -> u64
    decreases s.len(),
{
    if s.len() == 0 {
        0
    } else if s.len() == 1 {
        s[0]
    } else if s.last() > greatest(s.drop_last()) {
        s.last()
    } else {
        greatest(s.drop_last())
    }
}

/// Arithmetic mean, rounded down to a whole nanosecond.
pub open spec fn mean(s: Seq<u64>) -> nat
    recommends
        s.len() > 0,
{
    total(s) / s.len()
}

/// `least` is a sample, and no sample is below it.
pub proof fn lemma_least_is_minimum(s: Seq<u64>)
    requires
        s.len() > 0,
    ensures
        s.contains(least(s)),
        forall|i: int| 0 <= i < s.len() ==> least(s) <= #[trigger] s[i],
    decreases s.len(),
{
    if s.len() > 1 {
        let front = s.drop_last();
        lemma_least_is_minimum(front);
        let k = choose|k: int| 0 <= k < front.len() && front[k] == least(front);
        assert(s[k] == front[k]);
        assert forall|i: int| 0 <= i < s.len() implies least(s) <= #[trigger] s[i] by {
            if i < front.len() {
                assert(front[i] == s[i]);
            }
        }
    }
}

/// `greatest` is a sample, and no sample is above it.
pub proof fn lemma_greatest_is_maximum(s: Seq<u64>)
    requires
        s.len() > 0,
    ensures
        s.contains(greatest(s)),
        forall|i: int| 0 <= i < s.len() ==> greatest(s) >= #[trigger] s[i],
    decreases s.len(),
{
    if s.len() > 1 {
        let front = s.drop_last();
        lemma_greatest_is_maximum(front);
        let k = choose|k: int| 0 <= k < front.len() && front[k] == greatest(front);
        assert(s[k] == front[k]);
        assert forall|i: int| 0 <= i < s.len() implies greatest(s) >= #[trigger] s[i] by {
            if i < front.len() {
                assert(front[i] == s[i]);
            }
        }
    }
}

/// The sum lies between the set's size times its extremes.
pub proof fn lemma_total_between_extremes(s: Seq<u64>)
    ensures
        s.len() * least(s) <= total(s) <= s.len() * greatest(s),
    decreases s.len(),
{
    if s.len() == 1 {
        assert(total(s.drop_last()) == 0);
    } else if s.len() > 1 {
        let front = s.drop_last();
        lemma_total_between_extremes(front);
        let n = front.len();
        assert(n * least(s) <= n * least(front)) by (nonlinear_arith)
            requires
                least(s) <= least(front),
        ;
        assert(n * greatest(s) >= n * greatest(front)) by (nonlinear_arith)
            requires
                greatest(s) >= greatest(front),
        ;
        assert((n + 1) * least(s) == n * least(s) + least(s)) by (nonlinear_arith);
        assert((n + 1) * greatest(s) == n * greatest(s) + greatest(s)) by (nonlinear_arith);
    }
}

/// For every non-empty sample set the mean lies between the minimum and
/// the maximum.
pub proof fn lemma_mean_within_extremes(s: Seq<u64>)
    requires
        s.len() > 0,
    ensures
        least(s) <= mean(s) <= greatest(s),
{
    lemma_total_between_extremes(s);
    let n = s.len() as int;
    lemma_div_is_ordered(n * least(s), total(s) as int, n);
    lemma_div_is_ordered(total(s) as int, n * greatest(s), n);
    lemma_div_multiples_vanish(least(s) as int, n);
    lemma_div_multiples_vanish(greatest(s) as int, n);
}

/// A sum of `n` samples is at most `n` times the largest representable one.
pub proof fn lemma_total_bounded(s: Seq<u64>)
    ensures
        total(s) <= s.len() * u64::MAX,
{
    lemma_total_between_extremes(s);
    assert(s.len() * greatest(s) <= s.len() * u64::MAX) by (nonlinear_arith)
        requires
            greatest(s) <= u64::MAX,
    ;
}

/// Taking one sample out lowers the sum by that sample.
pub proof fn lemma_total_remove(s: Seq<u64>, i: int)
    requires
        0 <= i < s.len(),
    ensures
        total(s) == total(s.remove(i)) + s[i],
    decreases s.len(),
{
    if i < s.len() - 1 {
        let front = s.drop_last();
        lemma_total_remove(front, i);
        assert(s.remove(i).drop_last() =~= front.remove(i));
    }
}

/// The order of the samples is irrelevant to their sum.
pub proof fn lemma_total_ignores_order(a: Seq<u64>, b: Seq<u64>)
    requires
        a.to_multiset() == b.to_multiset(),
    ensures
        total(a) == total(b),
    decreases a.len(),
{
    to_multiset_len(a);
    to_multiset_len(b);
    if a.len() > 0 {
        let x = a.last();
        to_multiset_contains(a, x);
        to_multiset_contains(b, x);
        let j = choose|j: int| 0 <= j < b.len() && b[j] == x;
        to_multiset_remove(a, a.len() - 1);
        to_multiset_remove(b, j);
        lemma_total_ignores_order(a.drop_last(), b.remove(j));
        lemma_total_remove(b, j);
    }
}

/// The order of the samples is irrelevant to their summary: two sample sets
/// that hold the same durations equally often have the same sum, minimum,
/// maximum and mean.
pub proof fn lemma_summary_ignores_order(a: Seq<u64>, b: Seq<u64>)
    requires
        a.to_multiset() == b.to_multiset(),
    ensures
        a.len() == b.len(),
        total(a) == total(b),
        least(a) == least(b),
        greatest(a) == greatest(b),
        mean(a) == mean(b),
{
    to_multiset_len(a);
    to_multiset_len(b);
    lemma_total_ignores_order(a, b);
    if a.len() > 0 {
        lemma_least_is_minimum(a);
        lemma_least_is_minimum(b);
        lemma_greatest_is_maximum(a);
        lemma_greatest_is_maximum(b);
        to_multiset_contains(a, least(a));
        to_multiset_contains(b, least(a));
        to_multiset_contains(a, least(b));
        to_multiset_contains(b, least(b));
        to_multiset_contains(a, greatest(a));
        to_multiset_contains(b, greatest(a));
        to_multiset_contains(a, greatest(b));
        to_multiset_contains(b, greatest(b));
    }
}

} // verus!
