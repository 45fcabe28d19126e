//! A population of goblins that earn gold, are born and die, one event at
//! a time. Whether an event happens is decided by the caller; who it
//! happens to is drawn here.

use crate::random::{as_ints, WeightVec};
use crate::slots::Slots;
use crate::sums::{
    lemma_range_sum_non_negative, lemma_range_sum_update, lemma_total_push, quotient, range_sum,
    total,
};
use rand_xoshiro::SplitMix64;
use vstd::prelude::*;

verus! {

/// How a goblin is chosen among those alive.
#[derive(Clone, Copy, Debug, PartialEq, Eq, Structural)]
pub enum RandomStrategy {
    /// Every goblin alive is as likely as any other.
    Uniform,
    /// A goblin alive is as likely as its gold is plenty.
    Weighted,
}

/// Why the population could not take an event.
#[derive(Clone, Copy, Debug, PartialEq, Eq, Structural)]
pub enum ModelError {
    /// As many goblins were born as the model has room for.
    CapacityExceeded,
    /// A goblin's gold would be negative, or all the gold of the goblins
    /// alive would exceed `isize::MAX`.
    GoldOutOfRange,
}

/// Options of the simulation model.
#[derive(Clone, Copy, Debug)]
pub struct ModelOptions {
    /// The number of goblins that can be born in all.
    pub max_steps: usize,
    /// How much gold a newborn goblin has.
    pub initial_gold: isize,
    /// How the goblin that receives an income is chosen.
    pub rnd_income: RandomStrategy,
    /// How the goblin that dies is chosen.
    pub rnd_death: RandomStrategy,
}

/// The goblins as plain mathematics. Goblin `g` is slot `g` of both
/// collections: `alive` weighs one for a goblin alive, `gold` weighs its gold;
/// a dead goblin weighs nothing in either. `dead` counts the dead.
pub struct Population {
    pub alive: Slots,
    pub gold: Slots,
    pub dead: nat,
}

impl Population {
    /// The number of goblins ever born.
    pub open spec fn len(self) -> nat {
        self.gold.len()
    }

    /// Goblin `g` was born and has not died.
    pub open spec fn is_alive(self, g: int) -> bool {
        0 <= g < self.len() && self.alive.weights[g] > 0
    }

    /// The two collections hold the same goblins, a goblin alive weighs one
    /// and its gold, a dead one weighs nothing, and `dead` is the number of
    /// the dead.
    pub open spec fn wf(self) -> bool {
        &&& self.alive.wf()
        &&& self.gold.wf()
        &&& self.alive.len() == self.gold.len()
        &&& forall|g: int| 0 <= g < self.len() ==> #[trigger] self.alive.values[g] == 1
        &&& forall|g: int|
            0 <= g < self.len() ==> #[trigger] self.gold.weights[g] == if self.alive.weights[g]
                > 0 {
                self.gold.values[g]
            } else {
                0
            }
        &&& self.dead + total(self.alive.weights) == self.len()
    }

    /// The weights that the strategy `t` chooses by.
    pub open spec fn pool(self, t: RandomStrategy) -> Seq<int> {
        match t {
            RandomStrategy::Uniform => self.alive.weights,
            RandomStrategy::Weighted => self.gold.weights,
        }
    }

    /// `after` is this population with one goblin dead that was alive and
    /// that the strategy `t` could choose.
    pub open spec fn loses_one(self, t: RandomStrategy, after: Population) -> bool {
        exists|g: int|
            self.is_alive(g) && self.pool(t)[g] > 0 && after == #[trigger] self.killed(g)
    }

    /// One more goblin, alive, with the gold `gold`.
    pub open spec fn born(self, gold: int) -> Population {
        Population { alive: self.alive.pushed(1), gold: self.gold.pushed(gold), dead: self.dead }
    }

    /// Goblin `g` with `next` for its gold.
    pub open spec fn paid(self, g: int, next: int) -> Population {
        Population {
            alive: self.alive,
            gold: self.gold.added(g, next - self.gold.values[g]),
            dead: self.dead,
        }
    }

    /// Goblin `g` dead: it weighs nothing any more and keeps its gold.
    pub open spec fn killed(self, g: int) -> Population {
        Population {
            alive: self.alive.disabled(g),
            gold: self.gold.disabled(g),
            dead: self.dead + 1,
        }
    }
}

/// Simulation model of goblins making money.
pub struct Model {
    options: ModelOptions,
    alive: WeightVec,
    gold: WeightVec,
    dead_count: usize,
}

impl View for Model {
    type V = Population;

    closed spec fn view(&self) -> Population {
        Population { alive: self.alive@, gold: self.gold@, dead: self.dead_count as nat }
    }
}

impl Model {
    /// The options that the model was made with.
    pub closed spec fn options(&self) -> ModelOptions {
        self.options
    }

    /// The population is well-formed and has room for as many goblins as
    /// the options say.
    pub closed spec fn wf(&self) -> bool {
        &&& self.alive.wf()
        &&& self.gold.wf()
        &&& self.alive.capacity() == self.options.max_steps
        &&& self.gold.capacity() == self.options.max_steps
        &&& self@.wf()
    }

    /// What well-formedness says of the population.
    pub proof fn lemma_wf(&self)
        requires
            self.wf(),
        ensures
            self@.wf(),
            self@.len() <= self.options().max_steps,
            self.options().max_steps * 8 <= isize::MAX,
            total(self@.gold.weights) <= isize::MAX,
    {
        self.alive.lemma_wf();
        self.gold.lemma_wf();
    }

    /// Constructs a model with the options `options` and no goblin yet.
    pub fn new(options: ModelOptions) -> (m: Self)
        requires
            options.max_steps * 8 <= isize::MAX,
        ensures
            m.wf(),
            m.options() == options,
            m@ == (Population { alive: Slots::empty(), gold: Slots::empty(), dead: 0 }),
    {
        Model {
            alive: WeightVec::with_capacity(options.max_steps),
            gold: WeightVec::with_capacity(options.max_steps),
            options,
            dead_count: 0,
        }
    }

    /// The model has room for one more goblin.
    pub open spec fn has_room(&self) -> bool {
        self@.len() < self.options().max_steps
    }

    /// A newborn's gold is not negative and can be added to the gold of the
    /// goblins alive.
    pub open spec fn can_endow(&self) -> bool {
        0 <= self.options().initial_gold && total(self@.gold.weights)
            + self.options().initial_gold <= isize::MAX
    }

    /// Initializes the model: the first goblin is born.
    pub fn init(&mut self) -> (r: Result<(), ModelError>)
        requires
            old(self).wf(),
        ensures
            final(self).wf(),
            final(self).options() == old(self).options(),
            r == old(self).birth_outcome(),
            r is Ok ==> final(self)@ == old(self)@.born(old(self).options().initial_gold as int),
            r is Err ==> final(self)@ == old(self)@,
    {
        self.give_life()
    }

    /// What a birth comes to: it is refused for want of room, else for gold
    /// out of range, else it takes place.
    pub open spec fn birth_outcome(&self) -> Result<(), ModelError> {
        if !self.has_room() {
            Err(ModelError::CapacityExceeded)
        } else if !self.can_endow() {
            Err(ModelError::GoldOutOfRange)
        } else {
            Ok(())
        }
    }

    /// A new goblin is born if `born` says so.
    pub fn sim_birth(&mut self, born: bool) -> (r: Result<(), ModelError>)
        requires
            old(self).wf(),
        ensures
            final(self).wf(),
            final(self).options() == old(self).options(),
            !born ==> r is Ok && final(self)@ == old(self)@,
            born ==> r == old(self).birth_outcome(),
            born && r is Ok ==> final(self)@ == old(self)@.born(
                old(self).options().initial_gold as int,
            ),
            r is Err ==> final(self)@ == old(self)@,
    {
        if born {
            self.give_life()
        } else {
            Ok(())
        }
    }

    /// Gives life to a goblin: it is alive and has the initial gold.
    fn give_life(&mut self) -> (r: Result<(), ModelError>)
        requires
            old(self).wf(),
        ensures
            final(self).wf(),
            final(self).options() == old(self).options(),
            r == old(self).birth_outcome(),
            r is Ok ==> final(self)@ == old(self)@.born(old(self).options().initial_gold as int),
            r is Err ==> final(self)@ == old(self)@,
    {
        proof {
            self.alive.lemma_wf();
            self.gold.lemma_wf();
        }
        let n: usize = self.gold.len();
        if n >= self.options.max_steps {
            return Err(ModelError::CapacityExceeded);
        }
        let gold: isize = self.options.initial_gold;
        let all: isize = match self.gold.sum(0, n) {
            Ok(v) => v,
            Err(_) => 0,
        };
        if gold < 0 || all > isize::MAX - gold {
            return Err(ModelError::GoldOutOfRange);
        }
        proof {
            lemma_total_push(self@.alive.weights, 1);
            lemma_total_push(self@.gold.weights, gold as int);
        }
        // Neither push is refused: there is room in both collections.
        match self.alive.push(1) {
            Ok(()) => {},
            Err(_) => {
                return Err(ModelError::CapacityExceeded);
            },
        }
        match self.gold.push(gold) {
            Ok(()) => Ok(()),
            Err(_) => Err(ModelError::CapacityExceeded),
        }
    }

    /// A goblin chosen at random by the strategy `t` among those alive, or
    /// none when the weights that `t` goes by sum to zero.
    fn random_goblin(&self, t: RandomStrategy, rng: &mut SplitMix64) -> (r: Option<usize>)
        requires
            self.wf(),
        ensures
            r is None <==> total(self@.pool(t)) == 0,
            r matches Some(g) ==> self@.is_alive(g as int) && self@.pool(t)[g as int] > 0,
    {
        proof {
            self.alive.lemma_wf();
            self.gold.lemma_wf();
        }
        match t {
            RandomStrategy::Uniform => self.alive.random_index(rng),
            RandomStrategy::Weighted => self.gold.random_index(rng),
        }
    }

    /// Kills the goblin `goblin`, which is alive.
    pub fn kill(&mut self, goblin: usize)
        requires
            old(self).wf(),
            old(self)@.is_alive(goblin as int),
        ensures
            final(self).wf(),
            final(self).options() == old(self).options(),
            final(self)@ == old(self)@.killed(goblin as int),
    {
        proof {
            self.alive.lemma_wf();
            self.gold.lemma_wf();
            let w = self@.alive.weights;
            lemma_range_sum_update(w, goblin as int, 0, 0, w.len() as int);
            lemma_range_sum_non_negative(w.update(goblin as int, 0), 0, w.len() as int);
            assert(self.dead_count < self@.len());
        }
        // Neither reset is refused: the goblin is a slot of both collections.
        let in_alive = self.alive.reset(goblin);
        let in_gold = self.gold.reset(goblin);
        if in_alive.is_ok() && in_gold.is_ok() {
            self.dead_count = self.dead_count + 1;
        }
    }

    /// The goblin `goblin`, which is alive, can have `next` for its gold:
    /// `next` is not negative, and with it all the gold of the goblins alive
    /// stays within `isize::MAX`.
    pub open spec fn can_pay(&self, goblin: int, next: int) -> bool {
        0 <= next && total(self@.gold.weights) - self@.gold.values[goblin] + next <= isize::MAX
    }

    /// Gives the goblin `goblin`, which is alive, `next` for its gold, or
    /// refuses and changes nothing when `next` is out of range.
    pub fn set_gold(&mut self, goblin: usize, next: isize) -> (r: Result<(), ModelError>)
        requires
            old(self).wf(),
            old(self)@.is_alive(goblin as int),
        ensures
            final(self).wf(),
            final(self).options() == old(self).options(),
            old(self).can_pay(goblin as int, next as int) ==> r is Ok && final(self)@ == old(
                self,
            )@.paid(goblin as int, next as int),
            !old(self).can_pay(goblin as int, next as int) ==> r == Err::<(), ModelError>(
                ModelError::GoldOutOfRange,
            ) && final(self)@ == old(self)@,
    {
        proof {
            self.alive.lemma_wf();
            self.gold.lemma_wf();
            let w = self@.gold.weights;
            lemma_range_sum_update(w, goblin as int, 0, 0, w.len() as int);
            lemma_range_sum_non_negative(w.update(goblin as int, 0), 0, w.len() as int);
        }
        let n: usize = self.gold.len();
        let current: isize = self.gold.raw_values()[goblin];
        let all: isize = match self.gold.sum(0, n) {
            Ok(v) => v,
            Err(_) => 0,
        };
        if next < 0 || next > isize::MAX - (all - current) {
            return Err(ModelError::GoldOutOfRange);
        }
        match self.gold.add(goblin, next - current) {
            Ok(()) => Ok(()),
            Err(_) => Err(ModelError::GoldOutOfRange),
        }
    }

    /// Adds income to the goblin `goblin`, which is alive: `f_income` is
    /// asked what the goblin's gold becomes.
    fn add_income<F: Fn(isize) -> isize>(
        &mut self,
        goblin: usize,
        f_income: &F,
    ) -> (r: Result<(), ModelError>)
        requires
            old(self).wf(),
            old(self)@.is_alive(goblin as int),
            forall|x: isize| call_requires(f_income, (x,)),
        ensures
            final(self).wf(),
            final(self).options() == old(self).options(),
            old(self).pays(goblin as int, *f_income, r, final(self)@),
    {
        proof {
            self.gold.lemma_wf();
        }
        let current: isize = self.gold.raw_values()[goblin];
        let next: isize = f_income(current);
        let r = self.set_gold(goblin, next);
        proof {
            assert(old(self).gets(goblin as int, next as int, r, self@));
        }
        r
    }

    /// `after` and `r` are what comes of giving the goblin `goblin` the gold
    /// `next`.
    pub open spec fn gets(
        &self,
        goblin: int,
        next: int,
        r: Result<(), ModelError>,
        after: Population,
    ) -> bool {
        if self.can_pay(goblin, next) {
            r is Ok && after == self@.paid(goblin, next)
        } else {
            r == Err::<(), ModelError>(ModelError::GoldOutOfRange) && after == self@
        }
    }

    /// `after` and `r` are what comes of giving the goblin `goblin` the gold
    /// that `f_income` makes of the gold it has.
    pub open spec fn pays<F: Fn(isize) -> isize>(
        &self,
        goblin: int,
        f_income: F,
        r: Result<(), ModelError>,
        after: Population,
    ) -> bool {
        exists|next: isize|
            call_ensures(f_income, (self@.gold.values[goblin] as isize,), next)
                && #[trigger] self.gets(goblin, next as int, r, after)
    }

    /// `after` and `r` are what comes of an income for one goblin alive that
    /// the strategy of the options could choose.
    pub open spec fn pays_one<F: Fn(isize) -> isize>(
        &self,
        f_income: F,
        r: Result<(), ModelError>,
        after: Population,
    ) -> bool {
        exists|g: int|
            self@.is_alive(g) && self@.pool(self.options().rnd_income)[g] > 0
                && #[trigger] self.pays(g, f_income, r, after)
    }

    /// A goblin alive, chosen at random, receives an income if `lucky` says
    /// so: `f_income` is asked what its gold becomes. Nobody receives one
    /// when the weights that the strategy goes by sum to zero.
    pub fn sim_income<F: Fn(isize) -> isize>(
        &mut self,
        lucky: bool,
        rng: &mut SplitMix64,
        f_income: &F,
    ) -> (r: Result<(), ModelError>)
        requires
            old(self).wf(),
            forall|x: isize| call_requires(f_income, (x,)),
        ensures
            final(self).wf(),
            final(self).options() == old(self).options(),
            !lucky || total(old(self)@.pool(old(self).options().rnd_income)) == 0 ==> r is Ok
                && final(self)@ == old(self)@,
            lucky && total(old(self)@.pool(old(self).options().rnd_income)) != 0 ==> old(
                self,
            ).pays_one(*f_income, r, final(self)@),
    {
        if lucky {
            match self.random_goblin(self.options.rnd_income, rng) {
                Some(goblin) => {
                    let r = self.add_income(goblin, f_income);
                    proof {
                        assert(old(self).pays(goblin as int, *f_income, r, self@));
                    }
                    r
                },
                None => Ok(()),
            }
        } else {
            Ok(())
        }
    }

    /// A goblin alive, chosen at random, dies if `died` says so. Nobody dies
    /// when the weights that the strategy goes by sum to zero.
    pub fn sim_death(&mut self, died: bool, rng: &mut SplitMix64)
        requires
            old(self).wf(),
        ensures
            final(self).wf(),
            final(self).options() == old(self).options(),
            !died || total(old(self)@.pool(old(self).options().rnd_death)) == 0 ==> final(self)@
                == old(self)@,
            died && total(old(self)@.pool(old(self).options().rnd_death)) != 0 ==> old(
                self,
            )@.loses_one(old(self).options().rnd_death, final(self)@),
    {
        if died {
            match self.random_goblin(self.options.rnd_death, rng) {
                Some(goblin) => {
                    self.kill(goblin);
                    proof {
                        assert(final(self)@ == old(self)@.killed(goblin as int));
                    }
                },
                None => {},
            }
        }
    }

    /// Finishes the simulation and constructs a report.
    pub fn finish(self) -> (r: Report)
        requires
            self.wf(),
        ensures
            r.reports(self@),
    {
        Report::from_model(self)
    }
}

/// Report with the results of simulating the model.
pub struct Report {
    /// How many goblins are still alive.
    pub alive_count: usize,
    /// How many goblins are dead.
    pub dead_count: usize,
    /// The gold of every goblin ever born, in the order of birth. A dead
    /// goblin is listed with the gold it had when it died.
    pub gold: Vec<isize>,
}

impl Report {
    /// The report says of the population `p` how many goblins are alive, how
    /// many are dead, and what gold each has or had.
    pub open spec fn reports(&self, p: Population) -> bool {
        &&& self.alive_count == total(p.alive.weights)
        &&& self.dead_count == p.dead
        &&& self.alive_count + self.dead_count == p.len()
        &&& as_ints(self.gold@) == p.gold.values
    }

    /// Constructs a new simulation report from the model `m`.
    pub fn from_model(m: Model) -> (r: Self)
        requires
            m.wf(),
        ensures
            r.reports(m@),
    {
        proof {
            m.gold.lemma_wf();
            m.alive.lemma_wf();
            lemma_range_sum_non_negative(m@.alive.weights, 0, m@.alive.weights.len() as int);
        }
        let dead_count: usize = m.dead_count;
        let gold: Vec<isize> = m.gold.into_raw_values();
        proof {
            assert(gold@.len() == as_ints(gold@).len());
        }
        Report { alive_count: gold.len() - dead_count, dead_count, gold }
    }

    /// The largest gold of the report, or zero where nobody was born.
    pub fn max(&self) -> (m: isize)
        ensures
            self.gold@.len() == 0 ==> m == 0,
            self.gold@.len() > 0 ==> self.gold@.contains(m),
            forall|i: int| 0 <= i < self.gold@.len() ==> self.gold@[i] <= m,
    {
        if self.gold.len() == 0 {
            return 0;
        }
        let mut m: isize = self.gold[0];
        let mut i: usize = 1;
        while i < self.gold.len()
            invariant
                1 <= i <= self.gold@.len(),
                self.gold@.contains(m),
                forall|k: int| 0 <= k < i ==> self.gold@[k] <= m,
            decreases self.gold@.len() - i,
        {
            if self.gold[i] > m {
                m = self.gold[i];
            }
            i = i + 1;
        }
        m
    }

    /// The sum of the gold of the first `k` goblins can be computed: it is
    /// an `isize`, for every `k`.
    pub open spec fn summable(&self) -> bool {
        forall|k: int|
            0 <= k <= self.gold@.len() ==> isize::MIN <= #[trigger] range_sum(
                as_ints(self.gold@),
                0,
                k,
            ) <= isize::MAX
    }

    /// The mean gold of the report, rounded towards zero.
    pub fn mean(&self) -> (m: isize)
        requires
            0 < self.gold@.len() <= isize::MAX,
            self.summable(),
        ensures
            m == quotient(total(as_ints(self.gold@)), self.gold@.len() as int),
    {
        let n: usize = self.gold.len();
        let mut sum: isize = 0;
        let mut i: usize = 0;
        while i < n
            invariant
                n == self.gold@.len(),
                0 <= i <= n,
                self.summable(),
                sum == range_sum(as_ints(self.gold@), 0, i as int),
            decreases n - i,
        {
            proof {
                assert(as_ints(self.gold@)[i as int] == self.gold@[i as int]);
                assert(isize::MIN <= range_sum(as_ints(self.gold@), 0, i + 1) <= isize::MAX);
            }
            sum = sum + self.gold[i];
            i = i + 1;
        }
        let d: isize = n as isize;
        sum / d
    }
}

} // verus!
