//! Runs of operations on a weighted collection, and what holds at the end
//! of every run.

use crate::random::{drawable, lands_on, lemma_lands_on_positive};
use crate::slots::{allowed, apply, takes_effect, Op, Slots};
use crate::sums::total;
use vstd::prelude::*;

verus! {

/// The slots after the operations `ops`, applied in order to an empty
/// collection of capacity `cap`.
pub open spec fn run(ops: Seq<Op>, cap: nat) -> Slots
    decreases ops.len(),
{
    if ops.len() == 0 {
        Slots::empty()
    } else {
        apply(run(ops.drop_last(), cap), ops.last(), cap)
    }
}

/// Operation `k` of `ops` is allowed in the state that it meets.
pub open spec fn allowed_at(ops: Seq<Op>, cap: nat, k: int) -> bool {
    allowed(run(ops.take(k), cap), ops[k], cap)
}

/// Every operation of `ops` is allowed in the state that it meets.
pub open spec fn lawful(ops: Seq<Op>, cap: nat) -> bool {
    forall|k: int| 0 <= k < ops.len() ==> #[trigger] allowed_at(ops, cap, k)
}

/// Operation `k` of `ops` resets slot `i`, and the slot exists by then.
pub open spec fn resets_at(ops: Seq<Op>, cap: nat, k: int, i: int) -> bool {
    &&& 0 <= k < ops.len()
    &&& ops[k] == Op::Reset(i)
    &&& 0 <= i < run(ops.take(k), cap).len()
}

/// Some operation of `ops` resets slot `i`.
pub open spec fn was_reset(ops: Seq<Op>, cap: nat, i: int) -> bool {
    exists|k: int| resets_at(ops, cap, k, i)
}

/// Operation `k` of `ops` does not add to a slot that an earlier one has
/// reset.
pub open spec fn spares_reset_slots(ops: Seq<Op>, cap: nat, k: int) -> bool {
    match ops[k] {
        Op::Add(i, _) => !was_reset(ops.take(k), cap, i),
        _ => true,
    }
}

/// No operation of `ops` adds to a slot that an earlier one has reset.
pub open spec fn adds_to_live_slots(ops: Seq<Op>, cap: nat) -> bool {
    forall|k: int| 0 <= k < ops.len() ==> #[trigger] spares_reset_slots(ops, cap, k)
}

/// The values that count: the value of each slot that was never reset, and
/// zero for each slot that was.
pub open spec fn live_values(ops: Seq<Op>, cap: nat) -> Seq<int> {
    Seq::new(
        run(ops, cap).len(),
        |i: int|
            if was_reset(ops, cap, i) {
                0
            } else {
                run(ops, cap).values[i]
            },
    )
}

/// Operation `k` of `ops` adds to slot `i`.
pub open spec fn adds_to(ops: Seq<Op>, k: int, i: int) -> bool {
    ops[k] matches Op::Add(j, _) && j == i
}

/// A run that ends one operation earlier is lawful too, and a reset in it is
/// a reset in the longer run.
proof fn lemma_shorter_run(ops: Seq<Op>, cap: nat)
    requires
        ops.len() > 0,
    ensures
        lawful(ops, cap) ==> lawful(ops.drop_last(), cap),
        lawful(ops, cap) ==> allowed(run(ops.drop_last(), cap), ops.last(), cap),
        adds_to_live_slots(ops, cap) ==> adds_to_live_slots(ops.drop_last(), cap),
        forall|k: int, i: int|
            resets_at(ops.drop_last(), cap, k, i) ==> resets_at(ops, cap, k, i),
        forall|k: int, i: int|
            resets_at(ops, cap, k, i) && k < ops.len() - 1 ==> resets_at(
                ops.drop_last(),
                cap,
                k,
                i,
            ),
{
    let short = ops.drop_last();
    assert forall|k: int| 0 <= k < short.len() implies #[trigger] short.take(k) == ops.take(k) by {
        assert(short.take(k) =~= ops.take(k));
    }
    assert(ops.take(ops.len() - 1) =~= short);
    if lawful(ops, cap) {
        assert forall|k: int| 0 <= k < short.len() implies #[trigger] allowed_at(short, cap, k) by {
            assert(allowed_at(ops, cap, k));
        }
        assert(allowed_at(ops, cap, ops.len() - 1));
    }
    if adds_to_live_slots(ops, cap) {
        assert forall|k: int| 0 <= k < short.len() implies #[trigger] spares_reset_slots(
            short,
            cap,
            k,
        ) by {
            assert(spares_reset_slots(ops, cap, k));
        }
    }
}

/// After a lawful run, every slot has a value and a weight, its weight lies
/// between zero and its value, and the slots fit the capacity.
pub proof fn lemma_run_wf(ops: Seq<Op>, cap: nat)
    requires
        lawful(ops, cap),
    ensures
        run(ops, cap).wf(),
        run(ops, cap).len() <= cap,
    decreases ops.len(),
{
    if ops.len() > 0 {
        lemma_shorter_run(ops, cap);
        lemma_run_wf(ops.drop_last(), cap);
    }
}

/// Slots are never taken away: a run has at least the slots that it had
/// after its first `k` operations.
pub proof fn lemma_run_grows(ops: Seq<Op>, cap: nat, k: int)
    requires
        0 <= k <= ops.len(),
    ensures
        run(ops.take(k), cap).len() <= run(ops, cap).len(),
    decreases ops.len() - k,
{
    if k < ops.len() {
        let short = ops.drop_last();
        assert(short.take(k) =~= ops.take(k));
        lemma_run_grows(short, cap, k);
    } else {
        assert(ops.take(k) =~= ops);
    }
}

/// Sum consistency, slot by slot: after a lawful run that adds to no slot
/// it has reset, a slot that was never reset weighs its value, and a slot
/// that was reset weighs nothing.
pub proof fn lemma_weights_are_live_values(ops: Seq<Op>, cap: nat)
    requires
        lawful(ops, cap),
        adds_to_live_slots(ops, cap),
    ensures
        run(ops, cap).weights =~= live_values(ops, cap),
    decreases ops.len(),
{
    if ops.len() > 0 {
        let short = ops.drop_last();
        let before = run(short, cap);
        let after = run(ops, cap);
        let last = ops.last();
        lemma_shorter_run(ops, cap);
        lemma_run_wf(short, cap);
        lemma_run_wf(ops, cap);
        lemma_weights_are_live_values(short, cap);
        assert(ops.take(ops.len() - 1) =~= short);
        assert forall|i: int| 0 <= i < after.len() implies after.weights[i] == live_values(
            ops,
            cap,
        )[i] by {
            if i < before.len() {
                assert(before.weights[i] == live_values(short, cap)[i]);
            }
            if was_reset(short, cap, i) {
                let k = choose|k: int| resets_at(short, cap, k, i);
                assert(resets_at(ops, cap, k, i));
            }
            if was_reset(ops, cap, i) && !was_reset(short, cap, i) {
                let k = choose|k: int| resets_at(ops, cap, k, i);
                assert(k == ops.len() - 1);
            }
            if takes_effect(before, last, cap) {
                match last {
                    Op::Push(_) => {
                        if i == before.len() && was_reset(ops, cap, i) {
                            let k = choose|k: int| resets_at(ops, cap, k, i);
                            if k < ops.len() - 1 {
                                assert(resets_at(short, cap, k, i));
                                lemma_run_grows(short, cap, k);
                            }
                        }
                    },
                    Op::Add(j, _) => {
                        assert(spares_reset_slots(ops, cap, ops.len() - 1));
                    },
                    Op::Reset(j) => {
                        if i == j {
                            assert(resets_at(ops, cap, ops.len() - 1, i));
                        }
                    },
                }
            }
        }
    }
}

/// Sum consistency: after a lawful run that adds to no slot it has reset,
/// the weights sum to the sum of the values of the slots that were never
/// reset.
pub proof fn lemma_sum_consistency(ops: Seq<Op>, cap: nat)
    requires
        lawful(ops, cap),
        adds_to_live_slots(ops, cap),
    ensures
        total(run(ops, cap).weights) == total(live_values(ops, cap)),
{
    lemma_weights_are_live_values(ops, cap);
}

/// No resurrection: once a slot is reset, and as long as nothing is added
/// to that very slot, its weight is zero, so that no draw lands on it,
/// whatever is done to the other slots.
pub proof fn lemma_no_resurrection(ops: Seq<Op>, cap: nat, k: int, i: int)
    requires
        lawful(ops, cap),
        resets_at(ops, cap, k, i),
        forall|j: int| k < j < ops.len() ==> !#[trigger] adds_to(ops, j, i),
    ensures
        0 <= i < run(ops, cap).len(),
        run(ops, cap).weights[i] == 0,
        !drawable(run(ops, cap).weights, i),
    decreases ops.len(),
{
    let short = ops.drop_last();
    let after = run(ops, cap);
    lemma_shorter_run(ops, cap);
    lemma_run_wf(short, cap);
    lemma_run_wf(ops, cap);
    assert(ops.take(ops.len() - 1) =~= short);
    if k < ops.len() - 1 {
        assert(resets_at(short, cap, k, i));
        assert forall|j: int| k < j < short.len() implies !#[trigger] adds_to(short, j, i) by {
            assert(!adds_to(ops, j, i));
        }
        lemma_no_resurrection(short, cap, k, i);
        assert(!adds_to(ops, ops.len() - 1, i));
    }
    assert(after.weights[i] == 0);
    if drawable(after.weights, i) {
        let need = choose|need: int|
            1 <= need <= total(after.weights) && #[trigger] lands_on(after.weights, need, i);
        lemma_lands_on_positive(after.weights, need, i);
    }
}

} // verus!
