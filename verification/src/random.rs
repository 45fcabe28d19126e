//! Weighted random choice of a slot.
//!
//! [`RngFenwickTree`] keeps the current weight of every slot in a Fenwick
//! tree and finds the slot that a draw lands on by halving a window of slots.
//! [`WeightVec`] pairs it with the plain values that the slots were given.

use crate::draw::uniform_inclusive;
use crate::fenwick::{fits, tree_add, tree_deltas, tree_sum, tree_with_len, PrefixSums};
use crate::slots::{apply, Op, Slots};
use crate::sums::{
    lemma_range_sum_agree, lemma_range_sum_monotone, lemma_range_sum_non_negative,
    lemma_range_sum_split, lemma_range_sum_update, lemma_range_sum_zeros, non_negative,
    range_sum, total,
};
use rand_xoshiro::SplitMix64;
use vstd::prelude::*;

verus! {

/// Why an operation on slots was refused.
#[derive(Clone, Copy, Debug, PartialEq, Eq, Structural)]
pub enum WeightError {
    /// The slot index is not below the number of slots pushed so far.
    IndexOutOfRange,
    /// Every slot that the capacity allows has been pushed already.
    CapacityExceeded,
}

/// A weight in the weighted random choice.
pub trait Weight: Sized {
    /// The smallest positive weight.
    spec fn identity_spec() -> Self;

    /// Returns the smallest positive weight: the least value that a draw
    /// can take, zero being the weight of a slot that is never drawn.
    fn identity() -> (w: Self)
        ensures
            w == Self::identity_spec(),
    ;
}

impl Weight for isize {
    open spec fn identity_spec() -> isize {
        1
    }

    fn identity() -> isize {
        1
    }
}

/// The draw `need` lands on slot `i` of the weights `w`: the weights before
/// `i` sum to less than `need`, and those up to and including `i` reach it.
/// Slots are thus laid side by side, each as wide as its weight, and a draw
/// that falls on the boundary between two slots belongs to the lower one.
pub open spec fn lands_on(w: Seq<int>, need: int, i: int) -> bool {
    &&& 0 <= i < w.len()
    &&& range_sum(w, 0, i) < need <= range_sum(w, 0, i + 1)
}

/// Some draw between one and the sum of the weights lands on slot `i`.
pub open spec fn drawable(w: Seq<int>, i: int) -> bool {
    exists|need: int| 1 <= need <= total(w) && #[trigger] lands_on(w, need, i)
}

/// A draw lands only on a slot of positive weight.
pub proof fn lemma_lands_on_positive(w: Seq<int>, need: int, i: int)
    requires
        lands_on(w, need, i),
    ensures
        w[i] > 0,
{
    assert(range_sum(w, 0, i + 1) == range_sum(w, 0, i) + w[i]);
}

/// Determinism: a draw lands on one slot only. Whatever finds a slot that
/// the draw lands on finds the same slot.
pub proof fn lemma_lands_on_unique(w: Seq<int>, need: int, i: int, j: int)
    requires
        non_negative(w),
        lands_on(w, need, i),
        lands_on(w, need, j),
    ensures
        i == j,
{
    if i < j {
        lemma_range_sum_monotone(w, 0, 0, i + 1, j);
    }
    if j < i {
        lemma_range_sum_monotone(w, 0, 0, j + 1, i);
    }
}

/// Every slot of positive weight can be drawn.
pub proof fn lemma_positive_is_drawable(w: Seq<int>, i: int)
    requires
        non_negative(w),
        0 <= i < w.len(),
        w[i] > 0,
    ensures
        drawable(w, i),
{
    let need = range_sum(w, 0, i + 1);
    assert(need == range_sum(w, 0, i) + w[i]);
    lemma_range_sum_non_negative(w, 0, i);
    lemma_range_sum_monotone(w, 0, 0, i + 1, w.len() as int);
    assert(lands_on(w, need, i));
}

/// Round trip: right after a weight is pushed, the sum over its slot alone
/// is that weight.
pub proof fn lemma_push_then_sum(w: Seq<int>, x: int)
    ensures
        range_sum(w.push(x), w.len() as int, w.len() as int + 1) == x,
{
    assert(range_sum(w.push(x), w.len() as int, w.len() as int) == 0);
}

/// A Fenwick tree of weights with a length of its own: the tree's length is
/// the capacity, `len` counts the slots pushed so far.
pub struct RngFenwickTree {
    tree: PrefixSums,
    len: usize,
}

impl View for RngFenwickTree {
    type V = Seq<int>;

    /// The current weight of each slot pushed so far.
    open spec fn view(&self) -> Seq<int> {
        self.deltas().take(self.spec_len() as int)
    }
}

impl RngFenwickTree {
    /// The weight at every position of the tree, pushed or not.
    pub closed spec fn deltas(&self) -> Seq<int> {
        tree_deltas(self.tree)
    }

    /// The number of slots pushed so far.
    pub closed spec fn spec_len(&self) -> nat {
        self.len as nat
    }

    /// The number of slots that can be pushed in all.
    pub open spec fn capacity(&self) -> nat {
        self.deltas().len()
    }

    /// The slots pushed so far fit the capacity, the positions beyond them
    /// are untouched, no weight is negative and the weights sum to at most
    /// `isize::MAX`.
    pub open spec fn wf(&self) -> bool {
        &&& self.spec_len() <= self.capacity()
        &&& self.capacity() * 8 <= isize::MAX
        &&& fits(self.deltas())
        &&& forall|k: int| self.spec_len() <= k < self.capacity() ==> self.deltas()[k] == 0
    }

    /// In a well-formed tree the pushed slots carry the whole content of the
    /// tree: sums over them are sums over the tree.
    pub proof fn lemma_view_sums(&self, a: int, b: int)
        requires
            self.wf(),
            0 <= a <= b <= self@.len(),
        ensures
            self@.len() == self.spec_len(),
            range_sum(self@, a, b) == range_sum(self.deltas(), a, b),
            total(self@) == total(self.deltas()),
            fits(self@),
    {
        let d = self.deltas();
        let n = self.spec_len() as int;
        lemma_range_sum_agree(self@, d, a, b);
        lemma_range_sum_agree(self@, d, 0, n);
        lemma_range_sum_split(d, 0, n, d.len() as int);
        lemma_range_sum_zeros(d, n, d.len() as int);
    }

    /// Constructs a tree that can take `n` slots and holds none yet.
    pub fn with_capacity(n: usize) -> (t: Self)
        requires
            n * 8 <= isize::MAX,
        ensures
            t.wf(),
            t.capacity() == n,
            t@ == Seq::<int>::empty(),
    {
        let t = Self { tree: tree_with_len(n), len: 0 };
        proof {
            lemma_range_sum_zeros(t.deltas(), 0, n as int);
            assert(t@ =~= Seq::<int>::empty());
        }
        t
    }

    /// The number of slots pushed so far.
    pub fn len(&self) -> (n: usize)
        ensures
            n == self.spec_len(),
    {
        self.len
    }

    /// Pushes a new slot of weight `x`, or refuses when the capacity is used
    /// up.
    pub fn push(&mut self, x: isize) -> (r: Result<(), WeightError>)
        requires
            old(self).wf(),
            x >= 0,
            total(old(self)@) + x <= isize::MAX,
        ensures
            final(self).wf(),
            final(self).capacity() == old(self).capacity(),
            old(self).spec_len() < old(self).capacity() ==> r is Ok && final(self)@ == old(
                self,
            )@.push(x as int),
            old(self).spec_len() >= old(self).capacity() ==> r == Err::<(), WeightError>(
                WeightError::CapacityExceeded,
            ) && final(self)@ == old(self)@ && final(self).deltas() == old(self).deltas(),
    {
        let ghost d = self.deltas();
        let ghost n = self.len as int;
        proof {
            self.lemma_view_sums(0, n);
            if n < d.len() {
                lemma_range_sum_update(d, n, x as int, 0, d.len() as int);
            }
        }
        match tree_add(&mut self.tree, self.len, x) {
            Ok(()) => {
                self.len = self.len + 1;
                proof {
                    assert(self@ =~= d.take(n).push(x as int));
                }
                Ok(())
            },
            Err(_) => Err(WeightError::CapacityExceeded),
        }
    }

    /// Adds the delta `x` to the weight of slot `i`, or refuses when no such
    /// slot has been pushed.
    pub fn add(&mut self, i: usize, x: isize) -> (r: Result<(), WeightError>)
        requires
            old(self).wf(),
            i < old(self)@.len() ==> old(self)@[i as int] + x >= 0,
            i < old(self)@.len() ==> total(old(self)@) + x <= isize::MAX,
        ensures
            final(self).wf(),
            final(self).capacity() == old(self).capacity(),
            i < old(self)@.len() ==> r is Ok && final(self)@ == old(self)@.update(
                i as int,
                old(self)@[i as int] + x,
            ),
            i >= old(self)@.len() ==> r == Err::<(), WeightError>(WeightError::IndexOutOfRange)
                && final(self)@ == old(self)@ && final(self).deltas() == old(self).deltas(),
    {
        if i >= self.len {
            return Err(WeightError::IndexOutOfRange);
        }
        let ghost d = self.deltas();
        let ghost n = self.len as int;
        proof {
            self.lemma_view_sums(0, n);
            lemma_range_sum_update(d, i as int, d[i as int] + x, 0, d.len() as int);
        }
        match tree_add(&mut self.tree, i, x) {
            Ok(()) => {
                proof {
                    assert(self@ =~= d.take(n).update(i as int, d[i as int] + x));
                }
                Ok(())
            },
            Err(_) => Err(WeightError::IndexOutOfRange),
        }
    }

    /// The sum of the weights of the slots `a, ..., b - 1`. An empty range
    /// sums to zero wherever it lies; a range that is not empty must end
    /// within the slots pushed so far.
    pub fn sum(&self, a: usize, b: usize) -> (r: Result<isize, WeightError>)
        requires
            self.wf(),
        ensures
            a >= b ==> r == Ok::<isize, WeightError>(0),
            a < b <= self@.len() ==> r is Ok && r->Ok_0 == range_sum(self@, a as int, b as int),
            a < b && b > self@.len() ==> r == Err::<isize, WeightError>(
                WeightError::IndexOutOfRange,
            ),
    {
        if a >= b {
            return Ok(0);
        }
        if b > self.len {
            return Err(WeightError::IndexOutOfRange);
        }
        proof {
            self.lemma_view_sums(a as int, b as int);
        }
        match tree_sum(&self.tree, a, b) {
            Ok(v) => Ok(v),
            Err(_) => Err(WeightError::IndexOutOfRange),
        }
    }

    /// The slot that the draw `need` lands on, found by halving a window of
    /// slots: the lower half is kept when its weights reach what is still
    /// needed, else its weights are taken off the need and the upper half is
    /// kept.
    pub fn index_of_draw(&self, need: isize) -> (i: usize)
        requires
            self.wf(),
            1 <= need <= total(self@),
        ensures
            lands_on(self@, need as int, i as int),
    {
        let ghost w = self@;
        proof {
            self.lemma_view_sums(0, 0);
        }
        let mut rest: isize = need;
        let mut a: usize = 0;
        let mut b: usize = self.len;
        while b - a > 1
            invariant
                self.wf(),
                w == self@,
                fits(w),
                0 <= a < b <= w.len(),
                rest == need - range_sum(w, 0, a as int),
                range_sum(w, 0, a as int) < need <= range_sum(w, 0, b as int),
            decreases b - a,
        {
            let half: usize = a + (b - a) / 2;
            proof {
                lemma_range_sum_split(w, 0, a as int, half as int);
                lemma_range_sum_monotone(w, 0, a as int, half as int, w.len() as int);
                lemma_range_sum_non_negative(w, a as int, half as int);
            }
            let s: isize = match self.sum(a, half) {
                Ok(v) => v,
                Err(_) => 0,
            };
            if s < rest {
                rest = rest - s;
                a = half;
            } else {
                b = half;
            }
        }
        a
    }
}

/// A collection of weights from which a slot can be drawn at random, each
/// slot as likely as its weight is large.
pub trait Weights {
    /// The current weight of each slot.
    spec fn weights(&self) -> Seq<int>;

    /// The collection's invariant.
    spec fn valid(&self) -> bool;

    /// Draws a slot with the random generator `rng`. There is nothing to
    /// draw exactly when the weights sum to zero; a slot that is drawn has a
    /// positive weight.
    fn weighted_index(&self, rng: &mut SplitMix64) -> (r: Option<usize>)
        requires
            self.valid(),
        ensures
            r is None <==> total(self.weights()) == 0,
            r matches Some(i) ==> i < self.weights().len() && self.weights()[i as int] > 0,
    ;
}

impl Weights for RngFenwickTree {
    open spec fn weights(&self) -> Seq<int> {
        self@
    }

    open spec fn valid(&self) -> bool {
        self.wf()
    }

    /// One integer is drawn, between the least positive weight and the sum
    /// of all weights, and the slot is the one that this draw lands on.
    fn weighted_index(&self, rng: &mut SplitMix64) -> (r: Option<usize>)
        ensures
            r matches Some(i) ==> drawable(self@, i as int),
    {
        proof {
            self.lemma_view_sums(0, 0);
            lemma_range_sum_non_negative(self@, 0, self@.len() as int);
        }
        let all: isize = match self.sum(0, self.len) {
            Ok(v) => v,
            Err(_) => 0,
        };
        if all == 0 {
            return None;
        }
        let need: isize = uniform_inclusive(rng, isize::identity(), all);
        let i: usize = self.index_of_draw(need);
        proof {
            lemma_lands_on_positive(self@, need as int, i as int);
            assert(lands_on(self@, need as int, i as int));
        }
        Some(i)
    }
}

/// The entries of `s` as mathematical integers.
pub open spec fn as_ints(s: Seq<isize>) -> Seq<int> {
    s.map_values(|v: isize| v as int)
}

/// A vector of values together with a tree of their weights, from which a
/// random index into the vector is drawn.
pub struct WeightVec {
    vec: Vec<isize>,
    tree: RngFenwickTree,
}

impl View for WeightVec {
    type V = Slots;

    /// The value and the current weight of each slot.
    closed spec fn view(&self) -> Slots {
        Slots { values: as_ints(self.vec@), weights: self.tree@ }
    }
}

impl WeightVec {
    /// The number of slots that can be pushed in all.
    pub closed spec fn capacity(&self) -> nat {
        self.tree.capacity()
    }

    /// The slots are well-formed and fit the capacity, and their weights sum
    /// to at most `isize::MAX`.
    pub closed spec fn wf(&self) -> bool {
        &&& self.tree.wf()
        &&& self@.wf()
    }

    /// What well-formedness says of the slots.
    pub proof fn lemma_wf(&self)
        requires
            self.wf(),
        ensures
            self@.wf(),
            self@.len() <= self.capacity(),
            self.capacity() * 8 <= isize::MAX,
            total(self@.weights) <= isize::MAX,
    {
        self.tree.lemma_view_sums(0, 0);
    }

    /// Constructs a collection that can take `n` slots and holds none yet.
    pub fn with_capacity(n: usize) -> (c: Self)
        requires
            n * 8 <= isize::MAX,
        ensures
            c.wf(),
            c.capacity() == n,
            c@ == Slots::empty(),
    {
        let c = Self { vec: Vec::with_capacity(n), tree: RngFenwickTree::with_capacity(n) };
        proof {
            assert(as_ints(c.vec@) =~= Seq::<int>::empty());
        }
        c
    }

    /// The values of all slots in the order they were pushed, those of
    /// disabled slots included.
    pub fn raw_values(&self) -> (v: &Vec<isize>)
        ensures
            as_ints(v@) == self@.values,
    {
        &self.vec
    }

    /// Gives up the collection for the values of all its slots.
    pub fn into_raw_values(self) -> (v: Vec<isize>)
        ensures
            as_ints(v@) == self@.values,
    {
        self.vec
    }

    /// Pushes a new slot of value and weight `x`, or refuses when the
    /// capacity is used up.
    pub fn push(&mut self, x: isize) -> (r: Result<(), WeightError>)
        requires
            old(self).wf(),
            x >= 0,
            total(old(self)@.weights) + x <= isize::MAX,
        ensures
            final(self).wf(),
            final(self).capacity() == old(self).capacity(),
            old(self)@.len() < old(self).capacity() ==> r is Ok && final(self)@ == old(
                self,
            )@.pushed(x as int),
            old(self)@.len() >= old(self).capacity() ==> r == Err::<(), WeightError>(
                WeightError::CapacityExceeded,
            ) && final(self)@ == old(self)@,
            final(self)@ == apply(old(self)@, Op::Push(x as int), old(self).capacity()),
    {
        proof {
            self.tree.lemma_view_sums(0, 0);
        }
        match self.tree.push(x) {
            Ok(()) => {
                self.vec.push(x);
                proof {
                    assert(as_ints(self.vec@) =~= as_ints(old(self).vec@).push(x as int));
                }
                Ok(())
            },
            Err(e) => Err(e),
        }
    }

    /// Adds the delta `x` to the value and to the weight of slot `i`, or
    /// refuses when no such slot has been pushed.
    pub fn add(&mut self, i: usize, x: isize) -> (r: Result<(), WeightError>)
        requires
            old(self).wf(),
            i < old(self)@.len() ==> old(self)@.weights[i as int] + x >= 0,
            i < old(self)@.len() ==> old(self)@.values[i as int] + x <= isize::MAX,
            i < old(self)@.len() ==> total(old(self)@.weights) + x <= isize::MAX,
        ensures
            final(self).wf(),
            final(self).capacity() == old(self).capacity(),
            i < old(self)@.len() ==> r is Ok && final(self)@ == old(self)@.added(
                i as int,
                x as int,
            ),
            i >= old(self)@.len() ==> r == Err::<(), WeightError>(WeightError::IndexOutOfRange)
                && final(self)@ == old(self)@,
            final(self)@ == apply(old(self)@, Op::Add(i as int, x as int), old(self).capacity()),
    {
        if i >= self.vec.len() {
            return Err(WeightError::IndexOutOfRange);
        }
        let v: isize = self.vec[i];
        self.vec.set(i, v + x);
        proof {
            assert(as_ints(self.vec@) =~= as_ints(old(self).vec@).update(i as int, v + x));
        }
        self.tree.add(i, x)
    }

    /// Sets the weight of slot `i` to zero, so that the slot is never drawn
    /// again, and keeps its value; or refuses when no such slot has been
    /// pushed. The value is taken off the weight, which therefore has to
    /// equal it: the slot has not been reset before, or its value is zero.
    pub fn reset(&mut self, i: usize) -> (r: Result<(), WeightError>)
        requires
            old(self).wf(),
            i < old(self)@.len() ==> old(self)@.weights[i as int] - old(self)@.values[i as int]
                >= 0,
        ensures
            final(self).wf(),
            final(self).capacity() == old(self).capacity(),
            i < old(self)@.len() ==> r is Ok && final(self)@ == old(self)@.disabled(i as int)
                && final(self)@.weights[i as int] == 0,
            i >= old(self)@.len() ==> r == Err::<(), WeightError>(WeightError::IndexOutOfRange)
                && final(self)@ == old(self)@,
            final(self)@ == apply(old(self)@, Op::Reset(i as int), old(self).capacity()),
    {
        if i >= self.vec.len() {
            return Err(WeightError::IndexOutOfRange);
        }
        let v: isize = self.vec[i];
        proof {
            self.tree.lemma_view_sums(0, 0);
        }
        self.tree.add(i, -v)
    }

    /// The number of slots pushed so far.
    pub fn len(&self) -> (n: usize)
        requires
            self.wf(),
        ensures
            n == self@.len(),
    {
        self.vec.len()
    }

    /// The sum of the weights of the slots `a, ..., b - 1`. An empty range
    /// sums to zero wherever it lies; a range that is not empty must end
    /// within the slots pushed so far.
    pub fn sum(&self, a: usize, b: usize) -> (r: Result<isize, WeightError>)
        requires
            self.wf(),
        ensures
            a >= b ==> r == Ok::<isize, WeightError>(0),
            a < b <= self@.len() ==> r is Ok && r->Ok_0 == range_sum(
                self@.weights,
                a as int,
                b as int,
            ),
            a < b && b > self@.len() ==> r == Err::<isize, WeightError>(
                WeightError::IndexOutOfRange,
            ),
    {
        self.tree.sum(a, b)
    }

    /// The slot that the draw `need` lands on.
    pub fn index_of_draw(&self, need: isize) -> (i: usize)
        requires
            self.wf(),
            1 <= need <= total(self@.weights),
        ensures
            lands_on(self@.weights, need as int, i as int),
    {
        self.tree.index_of_draw(need)
    }

    /// Draws a random index with the random generator `rng`, each slot as
    /// likely as its weight is large. There is nothing to draw exactly when
    /// the weights sum to zero; a slot that is drawn has a positive weight.
    pub fn random_index(&self, rng: &mut SplitMix64) -> (r: Option<usize>)
        requires
            self.wf(),
        ensures
            r is None <==> total(self@.weights) == 0,
            r matches Some(i) ==> i < self@.len() && self@.weights[i as int] > 0 && drawable(
                self@.weights,
                i as int,
            ),
    {
        self.tree.weighted_index(rng)
    }
}

} // verus!
