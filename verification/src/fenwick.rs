//! The Fenwick tree of the `fenwick_tree` crate, as the verified code sees it.
//!
//! Nothing in this file is proved. Each item states what the crate's source
//! shows of one of its functions, over the sequence of per-position sums that
//! the tree stands for.

use crate::sums::{non_negative, range_sum, total};
use fenwick_tree::{AddError, FenwickTree, SumError};
use vstd::prelude::*;

verus! {

/// A `fenwick_tree::FenwickTree` over `isize`, opaque to the verifier: the
/// tree's own bounds name operator traits that the verifier has no account
/// of, so the tree is held behind this struct.
#[verifier::external_body]
pub struct PrefixSums {
    inner: FenwickTree<isize>,
}

/// `fenwick_tree::AddError`, carried through and never inspected.
#[verifier::external_type_specification]
#[verifier::external_body]
pub struct ExAddError(AddError);

/// `fenwick_tree::SumError`, carried through and never inspected.
#[verifier::external_type_specification]
#[verifier::external_body]
pub struct ExSumError(SumError);

/// What a tree holds: entry `k` is the sum of all deltas that were added at
/// position `k` since the tree was made. Its length is the length the tree
/// was made with. The tree stores sums of runs of these entries, from which
/// each entry can be told, so the sequence depends on the tree alone.
pub uninterp spec fn tree_deltas(t: PrefixSums) -> Seq<int>;

/// The sequences on which the tree's machine arithmetic cannot overflow:
/// no entry is negative and the entries sum to at most `isize::MAX`. Every
/// value the tree stores or computes along the way is then a sum of some of
/// the entries, which lies between zero and the total.
pub open spec fn fits(s: Seq<int>) -> bool {
    non_negative(s) && total(s) <= isize::MAX
}

/// `FenwickTree::with_len`: a tree of `n` positions, each at zero.
///
/// The backing vector holds `n` machine words, which the allocator refuses
/// beyond `isize::MAX` bytes.
#[verifier::external_body]
pub(crate) fn tree_with_len(n: usize) -> (t: PrefixSums)
    requires
        n * 8 <= isize::MAX,
    ensures
        tree_deltas(t) == Seq::new(n as nat, |k: int| 0int),
{
    PrefixSums { inner: FenwickTree::with_len(n) }
}

/// `FenwickTree::add`: adds `delta` at position `i`, or refuses and changes
/// nothing when `i` is not a position of the tree.
#[verifier::external_body]
pub(crate) fn tree_add(t: &mut PrefixSums, i: usize, delta: isize) -> (r: Result<(), AddError>)
    requires
        fits(tree_deltas(*old(t))),
        i < tree_deltas(*old(t)).len() ==> fits(
            tree_deltas(*old(t)).update(i as int, tree_deltas(*old(t))[i as int] + delta),
        ),
    ensures
        r is Ok <==> i < tree_deltas(*old(t)).len(),
        r is Ok ==> tree_deltas(*final(t)) == tree_deltas(*old(t)).update(
            i as int,
            tree_deltas(*old(t))[i as int] + delta,
        ),
        r is Err ==> tree_deltas(*final(t)) == tree_deltas(*old(t)),
{
    t.inner.add(i, delta)
}

/// `FenwickTree::sum` on the half-open range `start..end`: the sum of the
/// entries in the range, or a refusal when `start` is not a position of the
/// tree or `end` lies beyond its length. An empty range at a position of the
/// tree sums to zero. On a range that runs backwards the tree's answer is
/// the sum of no range, so none is asked for.
#[verifier::external_body]
pub(crate) fn tree_sum(t: &PrefixSums, start: usize, end: usize) -> (r: Result<isize, SumError>)
    requires
        fits(tree_deltas(*t)),
        start <= end,
    ensures
        r is Ok <==> (start < tree_deltas(*t).len() && end <= tree_deltas(*t).len()),
        r matches Ok(v) ==> v == range_sum(tree_deltas(*t), start as int, end as int),
{
    t.inner.sum(start..end)
}

} // verus!
