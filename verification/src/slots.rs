//! The slots of a weighted collection as plain mathematics: what each
//! operation does to them, and what holds after any run of operations.

use vstd::prelude::*;

verus! {

/// The state of a weighted collection. Slot `i` has the value `values[i]`,
/// which records what the slot was given, and the weight `weights[i]`, which
/// is what the slot counts for when one is drawn.
pub struct Slots {
    pub values: Seq<int>,
    pub weights: Seq<int>,
}

impl Slots {
    /// No slot at all.
    pub open spec fn empty() -> Slots {
        Slots { values: Seq::empty(), weights: Seq::empty() }
    }

    /// The number of slots.
    pub open spec fn len(self) -> nat {
        self.values.len()
    }

    /// Every slot has a value and a weight, and its weight lies between zero
    /// and its value.
    pub open spec fn wf(self) -> bool {
        &&& self.values.len() == self.weights.len()
        &&& forall|i: int| 0 <= i < self.len() ==> 0 <= #[trigger] self.weights[i] <= self.values[i]
    }

    /// One more slot, of value and weight `x`.
    pub open spec fn pushed(self, x: int) -> Slots {
        Slots { values: self.values.push(x), weights: self.weights.push(x) }
    }

    /// Slot `i` with `x` added to its value and to its weight.
    pub open spec fn added(self, i: int, x: int) -> Slots {
        Slots {
            values: self.values.update(i, self.values[i] + x),
            weights: self.weights.update(i, self.weights[i] + x),
        }
    }

    /// Slot `i` with its value taken off its weight; the value stays.
    pub open spec fn disabled(self, i: int) -> Slots {
        Slots { values: self.values, weights: self.weights.update(i, self.weights[i] - self.values[i]) }
    }
}

/// One operation on a weighted collection.
pub enum Op {
    /// Push a slot of the given value.
    Push(int),
    /// Add a delta, given second, to the slot given first.
    Add(int, int),
    /// Reset the given slot.
    Reset(int),
}

/// The operation is not refused by a collection of capacity `cap` with the
/// slots `s`: a push needs room, the others a slot that `s` has.
pub open spec fn takes_effect(s: Slots, op: Op, cap: nat) -> bool {
    match op {
        Op::Push(_) => s.len() < cap,
        Op::Add(i, _) => 0 <= i < s.len(),
        Op::Reset(i) => 0 <= i < s.len(),
    }
}

/// The slots after `op`. An operation that is refused changes nothing.
pub open spec fn apply(s: Slots, op: Op, cap: nat) -> Slots {
    if !takes_effect(s, op, cap) {
        s
    } else {
        match op {
            Op::Push(x) => s.pushed(x),
            Op::Add(i, x) => s.added(i, x),
            Op::Reset(i) => s.disabled(i),
        }
    }
}

/// What the operations ask of their caller: no weight is made negative.
pub open spec fn allowed(s: Slots, op: Op, cap: nat) -> bool {
    takes_effect(s, op, cap) ==> match op {
        Op::Push(x) => x >= 0,
        Op::Add(i, x) => s.weights[i] + x >= 0,
        Op::Reset(i) => s.weights[i] - s.values[i] >= 0,
    }
}

} // verus!
