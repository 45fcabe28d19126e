use rand::SeedableRng;
use rand_xoshiro::SplitMix64;
use weightvec::random::{WeightError, WeightVec};

fn collection_of(values: &[isize], capacity: usize) -> WeightVec {
    let mut c = WeightVec::with_capacity(capacity);
    for v in values {
        assert_eq!(c.push(*v), Ok(()));
    }
    c
}

#[test]
fn push_records_value_and_weight() {
    let mut c = WeightVec::with_capacity(3);
    assert_eq!(c.push(4), Ok(()));
    assert_eq!(c.push(0), Ok(()));
    assert_eq!(c.push(9), Ok(()));
    assert_eq!(c.len(), 3);
    assert_eq!(c.raw_values(), &vec![4, 0, 9]);
    assert_eq!(c.sum(0, 3), Ok(13));
    assert_eq!(c.sum(2, 3), Ok(9));
}

#[test]
fn push_beyond_capacity_changes_nothing() {
    let mut c = collection_of(&[4, 5], 2);
    assert_eq!(c.push(6), Err(WeightError::CapacityExceeded));
    assert_eq!(c.len(), 2);
    assert_eq!(c.raw_values(), &vec![4, 5]);
    assert_eq!(c.sum(0, 2), Ok(9));
}

#[test]
fn add_out_of_range_changes_nothing() {
    let mut c = collection_of(&[4, 5], 4);
    assert_eq!(c.add(2, 1), Err(WeightError::IndexOutOfRange));
    assert_eq!(c.add(4, 1), Err(WeightError::IndexOutOfRange));
    assert_eq!(c.raw_values(), &vec![4, 5]);
    assert_eq!(c.sum(0, 2), Ok(9));
}

#[test]
fn reset_out_of_range_changes_nothing() {
    let mut c = collection_of(&[4, 5], 4);
    assert_eq!(c.reset(2), Err(WeightError::IndexOutOfRange));
    assert_eq!(c.reset(usize::MAX), Err(WeightError::IndexOutOfRange));
    assert_eq!(c.raw_values(), &vec![4, 5]);
    assert_eq!(c.sum(0, 2), Ok(9));
}

#[test]
fn sum_out_of_range_is_refused() {
    let c = collection_of(&[4, 5], 4);
    assert_eq!(c.sum(0, 3), Err(WeightError::IndexOutOfRange));
    assert_eq!(c.sum(1, 1), Ok(0));
    assert_eq!(c.sum(7, 7), Ok(0));
}

#[test]
fn add_moves_value_and_weight_together() {
    let mut c = collection_of(&[4, 5, 6], 3);
    assert_eq!(c.add(1, 10), Ok(()));
    assert_eq!(c.add(2, -6), Ok(()));
    assert_eq!(c.raw_values(), &vec![4, 15, 0]);
    assert_eq!(c.sum(1, 2), Ok(15));
    assert_eq!(c.sum(2, 3), Ok(0));
    assert_eq!(c.sum(0, 3), Ok(19));
}

#[test]
fn reset_keeps_the_value_and_drops_the_weight() {
    let mut c = collection_of(&[4, 5, 6], 3);
    assert_eq!(c.reset(1), Ok(()));
    assert_eq!(c.raw_values(), &vec![4, 5, 6]);
    assert_eq!(c.sum(1, 2), Ok(0));
    assert_eq!(c.sum(0, 3), Ok(10));
    assert_eq!(c.len(), 3);
}

#[test]
fn into_raw_values_hands_out_all_values() {
    let mut c = collection_of(&[4, 5, 6], 3);
    assert_eq!(c.reset(0), Ok(()));
    assert_eq!(c.add(2, 1), Ok(()));
    assert_eq!(c.into_raw_values(), vec![4, 5, 7]);
}

#[test]
fn weights_sum_to_the_values_of_the_slots_never_reset() {
    let mut c = WeightVec::with_capacity(16);
    let mut reset = [false; 16];
    for k in 0..16usize {
        assert_eq!(c.push((k as isize * 3) % 7), Ok(()));
        if k % 3 == 2 {
            assert_eq!(c.reset(k - 1), Ok(()));
            reset[k - 1] = true;
        }
        if k % 4 == 3 && !reset[k - 3] {
            assert_eq!(c.add(k - 3, 5), Ok(()));
        }
        let live: isize = c
            .raw_values()
            .iter()
            .enumerate()
            .filter(|(i, _)| !reset[*i])
            .map(|(_, v)| *v)
            .sum();
        assert_eq!(c.sum(0, k + 1), Ok(live));
    }
    assert_eq!(c.raw_values().len(), 16);
}

#[test]
fn reset_slot_is_never_drawn_again() {
    let mut c = collection_of(&[3, 8, 2, 6, 1], 8);
    assert_eq!(c.reset(1), Ok(()));
    let mut rng = SplitMix64::seed_from_u64(5);
    for round in 0..300usize {
        match round % 4 {
            0 => assert_eq!(c.add(0, 1), Ok(())),
            1 => assert_eq!(c.add(3, -1).or(Ok::<(), WeightError>(())), Ok(())),
            _ => {}
        }
        if round == 100 {
            assert_eq!(c.push(4), Ok(()));
            assert_eq!(c.reset(2), Ok(()));
        }
        let i = c.random_index(&mut rng).unwrap();
        assert_ne!(i, 1);
        if round >= 100 {
            assert_ne!(i, 2);
        }
    }
    assert_eq!(c.sum(1, 2), Ok(0));
    assert_eq!(c.raw_values()[1], 8);
}

#[test]
fn last_live_slot_is_always_drawn() {
    let mut c = collection_of(&[3, 8, 2], 3);
    assert_eq!(c.reset(0), Ok(()));
    assert_eq!(c.reset(2), Ok(()));
    let mut rng = SplitMix64::seed_from_u64(9);
    for _ in 0..50 {
        assert_eq!(c.random_index(&mut rng), Some(1));
    }
    for need in 1..=8 {
        assert_eq!(c.index_of_draw(need), 1);
    }
}

#[test]
fn same_seed_and_operations_give_the_same_indices() {
    let mut runs: Vec<Vec<Option<usize>>> = Vec::new();
    for _ in 0..2 {
        let mut c = WeightVec::with_capacity(64);
        let mut rng = SplitMix64::seed_from_u64(2024);
        let mut drawn = Vec::new();
        assert_eq!(c.push(1), Ok(()));
        for step in 0..60usize {
            let i = c.random_index(&mut rng);
            drawn.push(i);
            assert_eq!(c.push((step % 5) as isize), Ok(()));
            if let Some(i) = i {
                if step % 7 == 0 {
                    assert_eq!(c.reset(i), Ok(()));
                } else {
                    assert_eq!(c.add(i, 2), Ok(()));
                }
            }
        }
        runs.push(drawn);
    }
    assert_eq!(runs[0], runs[1]);
    assert!(runs[0].iter().any(|i| i.is_some()));
}

#[test]
fn draws_cover_both_ends_of_the_range() {
    let c = collection_of(&[1, 1, 1, 1, 1, 1, 1, 1], 8);
    let mut rng = SplitMix64::seed_from_u64(17);
    let mut first = false;
    let mut last = false;
    for _ in 0..1000 {
        match c.random_index(&mut rng) {
            Some(0) => first = true,
            Some(7) => last = true,
            Some(i) => assert!(i < 8),
            None => panic!("weights are positive"),
        }
    }
    assert!(first && last);
}
