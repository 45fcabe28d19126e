use rand::{Rng, SeedableRng};
use rand_xoshiro::SplitMix64;
use weightvec::model::{Model, ModelError, ModelOptions, RandomStrategy, Report};

fn options(max_steps: usize, initial_gold: isize, t: RandomStrategy) -> ModelOptions {
    ModelOptions { max_steps, initial_gold, rnd_income: t, rnd_death: t }
}

fn plus_one(x: isize) -> isize {
    x + 1
}

#[test]
fn new_model_reports_nobody() {
    let report = Model::new(options(4, 1, RandomStrategy::Uniform)).finish();
    assert_eq!(report.alive_count, 0);
    assert_eq!(report.dead_count, 0);
    assert_eq!(report.gold, Vec::<isize>::new());
    assert_eq!(report.max(), 0);
}

#[test]
fn init_gives_life_to_one_goblin() {
    let mut m = Model::new(options(4, 3, RandomStrategy::Uniform));
    assert_eq!(m.init(), Ok(()));
    let report = m.finish();
    assert_eq!(report.alive_count, 1);
    assert_eq!(report.dead_count, 0);
    assert_eq!(report.gold, vec![3]);
}

#[test]
fn birth_happens_only_when_told() {
    let mut m = Model::new(options(4, 3, RandomStrategy::Uniform));
    assert_eq!(m.init(), Ok(()));
    assert_eq!(m.sim_birth(false), Ok(()));
    assert_eq!(m.sim_birth(true), Ok(()));
    assert_eq!(m.sim_birth(false), Ok(()));
    let report = m.finish();
    assert_eq!(report.alive_count, 2);
    assert_eq!(report.gold, vec![3, 3]);
}

#[test]
fn birth_beyond_capacity_is_refused() {
    let mut m = Model::new(options(2, 1, RandomStrategy::Uniform));
    assert_eq!(m.init(), Ok(()));
    assert_eq!(m.sim_birth(true), Ok(()));
    assert_eq!(m.sim_birth(true), Err(ModelError::CapacityExceeded));
    assert_eq!(m.sim_birth(false), Ok(()));
    let report = m.finish();
    assert_eq!(report.alive_count, 2);
    assert_eq!(report.gold, vec![1, 1]);
}

#[test]
fn model_without_room_refuses_the_first_goblin() {
    let mut m = Model::new(options(0, 1, RandomStrategy::Uniform));
    assert_eq!(m.init(), Err(ModelError::CapacityExceeded));
    assert_eq!(m.finish().gold, Vec::<isize>::new());
}

#[test]
fn negative_initial_gold_is_refused() {
    let mut m = Model::new(options(3, -1, RandomStrategy::Uniform));
    assert_eq!(m.init(), Err(ModelError::GoldOutOfRange));
    assert_eq!(m.finish().alive_count, 0);
}

#[test]
fn initial_gold_beyond_the_limit_is_refused() {
    let mut m = Model::new(options(3, isize::MAX, RandomStrategy::Uniform));
    assert_eq!(m.init(), Ok(()));
    assert_eq!(m.sim_birth(true), Err(ModelError::GoldOutOfRange));
    let report = m.finish();
    assert_eq!(report.alive_count, 1);
    assert_eq!(report.gold, vec![isize::MAX]);
}

#[test]
fn income_goes_to_the_only_goblin() {
    let mut m = Model::new(options(4, 1, RandomStrategy::Weighted));
    let mut rng = SplitMix64::seed_from_u64(1);
    assert_eq!(m.init(), Ok(()));
    assert_eq!(m.sim_income(true, &mut rng, &plus_one), Ok(()));
    assert_eq!(m.sim_income(false, &mut rng, &plus_one), Ok(()));
    assert_eq!(m.sim_income(true, &mut rng, &|x: isize| x * 10), Ok(()));
    let report = m.finish();
    assert_eq!(report.gold, vec![20]);
    assert_eq!(report.alive_count, 1);
}

#[test]
fn income_that_is_negative_is_refused() {
    let mut m = Model::new(options(4, 5, RandomStrategy::Uniform));
    let mut rng = SplitMix64::seed_from_u64(1);
    assert_eq!(m.init(), Ok(()));
    assert_eq!(m.sim_income(true, &mut rng, &|x: isize| x - 6), Err(ModelError::GoldOutOfRange));
    assert_eq!(m.sim_income(true, &mut rng, &|x: isize| x - 5), Ok(()));
    assert_eq!(m.finish().gold, vec![0]);
}

#[test]
fn income_beyond_the_limit_is_refused() {
    let mut m = Model::new(options(4, 5, RandomStrategy::Uniform));
    assert_eq!(m.init(), Ok(()));
    assert_eq!(m.sim_birth(true), Ok(()));
    assert_eq!(m.set_gold(0, isize::MAX - 4), Err(ModelError::GoldOutOfRange));
    assert_eq!(m.set_gold(0, isize::MAX - 5), Ok(()));
    assert_eq!(m.set_gold(1, 6), Err(ModelError::GoldOutOfRange));
    assert_eq!(m.set_gold(1, 0), Ok(()));
    assert_eq!(m.set_gold(0, isize::MAX), Ok(()));
    assert_eq!(m.finish().gold, vec![isize::MAX, 0]);
}

#[test]
fn weighted_choice_finds_nobody_without_gold() {
    let mut m = Model::new(options(4, 0, RandomStrategy::Weighted));
    let mut rng = SplitMix64::seed_from_u64(1);
    assert_eq!(m.init(), Ok(()));
    assert_eq!(m.sim_income(true, &mut rng, &plus_one), Ok(()));
    m.sim_death(true, &mut rng);
    let report = m.finish();
    assert_eq!(report.gold, vec![0]);
    assert_eq!(report.alive_count, 1);
    assert_eq!(report.dead_count, 0);
}

#[test]
fn death_takes_the_only_goblin() {
    let mut m = Model::new(options(4, 2, RandomStrategy::Uniform));
    let mut rng = SplitMix64::seed_from_u64(1);
    assert_eq!(m.init(), Ok(()));
    m.sim_death(false, &mut rng);
    m.sim_death(true, &mut rng);
    m.sim_death(true, &mut rng);
    assert_eq!(m.sim_income(true, &mut rng, &plus_one), Ok(()));
    let report = m.finish();
    assert_eq!(report.alive_count, 0);
    assert_eq!(report.dead_count, 1);
    assert_eq!(report.gold, vec![2]);
}

#[test]
fn kill_spares_the_others() {
    let mut m = Model::new(options(4, 2, RandomStrategy::Weighted));
    let mut rng = SplitMix64::seed_from_u64(1);
    assert_eq!(m.init(), Ok(()));
    assert_eq!(m.sim_birth(true), Ok(()));
    assert_eq!(m.sim_birth(true), Ok(()));
    m.kill(0);
    m.kill(2);
    for _ in 0..20 {
        assert_eq!(m.sim_income(true, &mut rng, &plus_one), Ok(()));
    }
    let report = m.finish();
    assert_eq!(report.alive_count, 1);
    assert_eq!(report.dead_count, 2);
    assert_eq!(report.gold, vec![2, 22, 2]);
}

#[test]
fn report_counts_add_up_after_a_long_run() {
    let steps = 2000;
    let mut m = Model::new(ModelOptions {
        max_steps: steps,
        initial_gold: 1,
        rnd_income: RandomStrategy::Weighted,
        rnd_death: RandomStrategy::Uniform,
    });
    let mut rng = SplitMix64::seed_from_u64(1);
    assert_eq!(m.init(), Ok(()));
    let mut born = 1;
    for _ in 1..(steps - 1) {
        let lucky = rng.gen_bool(1.0);
        assert_eq!(m.sim_income(lucky, &mut rng, &plus_one), Ok(()));
        let birth = rng.gen_bool(0.5);
        assert_eq!(m.sim_birth(birth), Ok(()));
        if birth {
            born += 1;
        }
        let died = rng.gen_bool(0.11);
        m.sim_death(died, &mut rng);
    }
    let report = m.finish();
    assert_eq!(report.gold.len(), born);
    assert_eq!(report.alive_count + report.dead_count, born);
    assert!(report.dead_count > 0);
    assert!(report.gold.iter().all(|g| *g >= 1));
    assert_eq!(report.max(), *report.gold.iter().max().unwrap());
}

#[test]
fn same_seed_gives_the_same_report() {
    let mut reports: Vec<Report> = Vec::new();
    for _ in 0..2 {
        let mut m = Model::new(options(300, 1, RandomStrategy::Weighted));
        let mut rng = SplitMix64::seed_from_u64(99);
        assert_eq!(m.init(), Ok(()));
        for _ in 0..200 {
            assert_eq!(m.sim_income(true, &mut rng, &plus_one), Ok(()));
            assert_eq!(m.sim_birth(true), Ok(()));
            let died = rng.gen_bool(0.2);
            m.sim_death(died, &mut rng);
        }
        reports.push(m.finish());
    }
    assert_eq!(reports[0].gold, reports[1].gold);
    assert_eq!(reports[0].alive_count, reports[1].alive_count);
    assert_eq!(reports[0].dead_count, reports[1].dead_count);
}

#[test]
fn max_is_the_largest_gold() {
    let report = Report { alive_count: 3, dead_count: 1, gold: vec![4, 9, 2, 9] };
    assert_eq!(report.max(), 9);
    let report = Report { alive_count: 1, dead_count: 0, gold: vec![-4] };
    assert_eq!(report.max(), -4);
}

#[test]
fn mean_is_rounded_towards_zero() {
    let report = Report { alive_count: 3, dead_count: 0, gold: vec![1, 2, 4] };
    assert_eq!(report.mean(), 2);
    let report = Report { alive_count: 2, dead_count: 0, gold: vec![-3, -4] };
    assert_eq!(report.mean(), -3);
    let report = Report { alive_count: 1, dead_count: 0, gold: vec![isize::MAX] };
    assert_eq!(report.mean(), isize::MAX);
}
