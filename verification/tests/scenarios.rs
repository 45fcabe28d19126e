use rand::SeedableRng;
use rand_xoshiro::SplitMix64;
use weightvec::random::{WeightError, WeightVec};

fn four_ones() -> WeightVec {
    let mut c = WeightVec::with_capacity(4);
    for _ in 0..4 {
        assert_eq!(c.push(1), Ok(()));
    }
    c
}

#[test]
fn fresh_collection_has_nothing_to_draw() {
    let c = WeightVec::with_capacity(4);
    let mut rng = SplitMix64::seed_from_u64(1);
    assert_eq!(c.random_index(&mut rng), None);
    assert_eq!(c.sum(0, 0), Ok(0));
    assert_eq!(c.len(), 0);
}

#[test]
fn collection_without_capacity_has_nothing_to_draw() {
    let mut c = WeightVec::with_capacity(0);
    let mut rng = SplitMix64::seed_from_u64(1);
    assert_eq!(c.random_index(&mut rng), None);
    assert_eq!(c.push(1), Err(WeightError::CapacityExceeded));
    assert_eq!(c.random_index(&mut rng), None);
}

#[test]
fn all_slots_reset_leaves_nothing_to_draw() {
    let mut c = four_ones();
    for i in 0..4 {
        assert_eq!(c.reset(i), Ok(()));
    }
    let mut rng = SplitMix64::seed_from_u64(1);
    assert_eq!(c.random_index(&mut rng), None);
    assert_eq!(c.sum(0, 4), Ok(0));
    assert_eq!(c.raw_values(), &vec![1, 1, 1, 1]);
}

#[test]
fn draw_of_three_among_four_ones_lands_on_slot_two() {
    let c = four_ones();
    assert_eq!(c.sum(0, 4), Ok(4));
    assert_eq!(c.sum(0, 2), Ok(2));
    assert_eq!(c.sum(2, 3), Ok(1));
    assert_eq!(c.index_of_draw(3), 2);
}

#[test]
fn draw_of_three_after_reset_of_slot_two_lands_on_slot_three() {
    let mut c = four_ones();
    assert_eq!(c.reset(2), Ok(()));
    assert_eq!(c.sum(0, 4), Ok(3));
    assert_eq!(c.index_of_draw(3), 3);
}

#[test]
fn add_raises_weight_and_total() {
    let mut c = four_ones();
    assert_eq!(c.reset(2), Ok(()));
    assert_eq!(c.add(1, 5), Ok(()));
    assert_eq!(c.sum(1, 2), Ok(6));
    assert_eq!(c.sum(0, 4), Ok(8));
    assert_eq!(c.sum(0, 1), Ok(1));
    assert_eq!(c.sum(2, 3), Ok(0));
    assert_eq!(c.sum(3, 4), Ok(1));
    assert_eq!(c.raw_values(), &vec![1, 6, 1, 1]);
}
