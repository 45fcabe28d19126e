//! Partial sums of integer sequences, the vocabulary of every contract in
//! this crate that speaks of weights.

use vstd::prelude::*;

verus! {

/// The sum of `s[a], ..., s[b - 1]`; zero when the range is empty.
pub open spec fn range_sum(s: Seq<int>, a: int, b: int) -> int
    decreases b - a,
{
    if a >= b {
        0
    } else {
        range_sum(s, a, b - 1) + s[b - 1]
    }
}

/// The sum of all entries of `s`.
pub open spec fn total(s: Seq<int>) -> int {
    range_sum(s, 0, s.len() as int)
}

/// `a` divided by the positive `n`, rounded towards zero.
pub open spec fn quotient(a: int, n: int) -> int {
    if a >= 0 {
        a / n
    } else {
        -((-a) / n)
    }
}

/// No entry of `s` is negative.
pub open spec fn non_negative(s: Seq<int>) -> bool {
    forall|i: int| 0 <= i < s.len() ==> s[i] >= 0
}

/// A range splits at any point inside it.
pub proof fn lemma_range_sum_split(s: Seq<int>, a: int, m: int, b: int)
    requires
        a <= m <= b,
    ensures
        range_sum(s, a, b) == range_sum(s, a, m) + range_sum(s, m, b),
    decreases b - m,
{
    if m < b {
        lemma_range_sum_split(s, a, m, b - 1);
    }
}

/// Two sequences that agree on a range have the same sum over it.
pub proof fn lemma_range_sum_agree(s: Seq<int>, t: Seq<int>, a: int, b: int)
    requires
        forall|i: int| a <= i < b ==> s[i] == t[i],
    ensures
        range_sum(s, a, b) == range_sum(t, a, b),
    decreases b - a,
{
    if a < b {
        lemma_range_sum_agree(s, t, a, b - 1);
    }
}

/// A range of non-negative entries has a non-negative sum.
pub proof fn lemma_range_sum_non_negative(s: Seq<int>, a: int, b: int)
    requires
        forall|i: int| a <= i < b ==> s[i] >= 0,
    ensures
        range_sum(s, a, b) >= 0,
    decreases b - a,
{
    if a < b {
        lemma_range_sum_non_negative(s, a, b - 1);
    }
}

/// Among non-negative entries, a range sums to no more than a range that
/// contains it.
pub proof fn lemma_range_sum_monotone(s: Seq<int>, a: int, b: int, c: int, d: int)
    requires
        a <= b <= c <= d,
        forall|i: int| a <= i < d ==> s[i] >= 0,
    ensures
        range_sum(s, b, c) <= range_sum(s, a, d),
{
    lemma_range_sum_split(s, a, b, d);
    lemma_range_sum_split(s, b, c, d);
    lemma_range_sum_non_negative(s, a, b);
    lemma_range_sum_non_negative(s, c, d);
}

/// Changing one entry inside a range shifts the sum by the change; an
/// entry outside the range leaves the sum alone.
pub proof fn lemma_range_sum_update(s: Seq<int>, i: int, v: int, a: int, b: int)
    requires
        0 <= i < s.len(),
        0 <= a,
        b <= s.len(),
    ensures
        range_sum(s.update(i, v), a, b) == range_sum(s, a, b) + if a <= i < b {
            v - s[i]
        } else {
            0
        },
    decreases b - a,
{
    if a < b {
        lemma_range_sum_update(s, i, v, a, b - 1);
    }
}

/// Appending an entry leaves every sum inside the old length alone and adds
/// the entry to the total.
pub proof fn lemma_total_push(s: Seq<int>, v: int)
    ensures
        total(s.push(v)) == total(s) + v,
{
    lemma_range_sum_agree(s, s.push(v), 0, s.len() as int);
}

/// A sequence of zeros sums to zero over every range.
pub proof fn lemma_range_sum_zeros(s: Seq<int>, a: int, b: int)
    requires
        forall|i: int| a <= i < b ==> s[i] == 0,
    ensures
        range_sum(s, a, b) == 0,
    decreases b - a,
{
    if a < b {
        lemma_range_sum_zeros(s, a, b - 1);
    }
}

} // verus!
