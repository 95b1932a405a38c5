//! The generation controller: seeding, truncation selection, breeding, and
//! convergence detection.
//!
//! The controller owns every decision of the optimization loop; the caller
//! only carries layouts to the evaluator and brings the results back. One
//! generation is: fill the population to its full size, `select` the elites,
//! and unless the run has converged, `breed` the next wave of offspring.

use vstd::prelude::*;
use crate::evaluate::EvaluationResult;
use crate::layout::Layout;
use crate::mutation::mutate_layout;
use crate::population::{all_wf, fitness_of, sort_by_fitness_desc, sorted_desc};

verus! {

/// The knobs of a run.
pub struct Config {
    /// Full population size of one generation.
    pub population_size: usize,
    /// How many best members survive a selection.
    pub elite_count: usize,
    /// How many mutated copies each elite spawns.
    pub offspring_per_elite: usize,
    /// Consecutive generations without improvement before the run stops.
    pub stagnation_limit: u64,
}

impl Config {
    /// A usable configuration: at least one elite, offspring and stagnation
    /// step, with elites and offspring together filling the population.
    pub open spec fn wf(self) -> bool {
        &&& 1 <= self.elite_count
        &&& 1 <= self.offspring_per_elite
        &&& 1 <= self.stagnation_limit
        &&& (self.elite_count as int) * (self.offspring_per_elite as int + 1)
            == self.population_size as int
        &&& self.population_size <= 0x1000_0000
    }
}

/// What the population arithmetic of a usable configuration gives: the
/// population is non-empty, holds at least the elites, and splits into
/// elites plus their offspring.
pub proof fn lemma_config_bounds(c: Config)
    requires
        c.wf(),
    ensures
        1 <= c.population_size,
        c.elite_count <= c.population_size,
        (c.elite_count as int) * (c.offspring_per_elite as int) + c.elite_count as int
            == c.population_size as int,
{
    assert((c.elite_count as int) * (c.offspring_per_elite as int + 1) == (c.elite_count as int)
        * (c.offspring_per_elite as int) + c.elite_count as int) by (nonlinear_arith);
    assert((c.elite_count as int) * (c.offspring_per_elite as int) >= 1 * 1) by (nonlinear_arith)
        requires
            c.elite_count as int >= 1,
            c.offspring_per_elite as int >= 1,
    ;
}

/// The reference configuration: a thousand layouts, the hundred best kept,
/// nine offspring each, and a stop after a hundred still generations.
pub fn default_config() -> (c: Config)
    ensures
        c.wf(),
        c.population_size == 1000,
        c.elite_count == 100,
        c.offspring_per_elite == 9,
        c.stagnation_limit == 100,
{
    Config { population_size: 1000, elite_count: 100, offspring_per_elite: 9, stagnation_limit: 100 }
}

/// Where the run stands.
pub enum Phase {
    /// Results of the current wave are still being collected.
    Gathering,
    /// The elites of the last wave are chosen and may breed.
    Selected,
    /// The best fitness has stagnated for the configured number of
    /// generations: the run is over.
    Converged,
}

/// The state of one optimization run.
pub struct Controller {
    pub config: Config,
    pub phase: Phase,
    /// The current population: a full wave while gathering, the elites
    /// after a selection.
    pub population: Vec<EvaluationResult>,
    /// Best fitness seen by the latest selection; meaningful once
    /// `has_best` is set.
    pub best_fitness: i64,
    pub has_best: bool,
    /// Consecutive selections that left the best fitness unchanged.
    pub streak: u64,
    /// Completed selections.
    pub generation: u64,
}

impl Controller {
    /// The controller invariant.
    pub open spec fn wf(self) -> bool {
        &&& self.config.wf()
        &&& self.population@.len() <= self.config.population_size
        &&& all_wf(self.population@)
        &&& self.has_best ==> exists|k: int|
            0 <= k < self.population@.len() && fitness_of(#[trigger] self.population@[k])
                == self.best_fitness as int
        &&& (self.phase is Converged) <==> self.streak >= self.config.stagnation_limit
        &&& (self.phase is Selected) ==> self.population@.len() == self.config.elite_count
    }

    /// A fresh run: empty population, nothing seen yet.
    pub fn new(config: Config) -> (c: Controller)
        requires
            config.wf(),
        ensures
            c.wf(),
            c.config == config,
            c.phase is Gathering,
            c.population@.len() == 0,
            !c.has_best,
            c.streak == 0,
            c.generation == 0,
    {
        Controller {
            config,
            phase: Phase::Gathering,
            population: Vec::new(),
            best_fitness: 0,
            has_best: false,
            streak: 0,
            generation: 0,
        }
    }

    /// Takes one evaluated layout into the current wave.
    pub fn add_result(&mut self, r: EvaluationResult)
        requires
            old(self).wf(),
            old(self).phase is Gathering,
            old(self).population@.len() < old(self).config.population_size,
            r.layout.wf(),
        ensures
            final(self).wf(),
            final(self).population@ == old(self).population@.push(r),
            final(self).config == old(self).config,
            final(self).phase == old(self).phase,
            final(self).best_fitness == old(self).best_fitness,
            final(self).has_best == old(self).has_best,
            final(self).streak == old(self).streak,
            final(self).generation == old(self).generation,
    {
        self.population.push(r);
        proof {
            if self.has_best {
                let k = choose|k: int|
                    0 <= k < old(self).population@.len() && fitness_of(
                        old(self).population@[k],
                    ) == self.best_fitness as int;
                assert(fitness_of(self.population@[k]) == self.best_fitness as int);
            }
        }
    }

    /// One selection: sorts the full wave best-first, keeps the elites,
    /// records the best fitness, counts stagnation and decides convergence.
    /// Every survivor is a member of the wave and no discarded member is
    /// fitter than the worst survivor; the best fitness never regresses,
    /// and the run converges exactly when it has been unchanged for the
    /// configured number of selections in a row.
    pub fn select(&mut self) -> (converged: bool)
        requires
            old(self).wf(),
            old(self).phase is Gathering,
            old(self).population@.len() == old(self).config.population_size,
        ensures
            final(self).wf(),
            final(self).config == old(self).config,
            final(self).population@.len() == old(self).config.elite_count,
            sorted_desc(final(self).population@),
            forall|k: int|
                0 <= k < final(self).population@.len() ==> old(self).population@.contains(
                    #[trigger] final(self).population@[k],
                ),
            forall|x: EvaluationResult|
                old(self).population@.to_multiset().count(x)
                    > final(self).population@.to_multiset().count(x) ==> fitness_of(x)
                    <= fitness_of(
                    final(self).population@[old(self).config.elite_count as int - 1],
                ),
            final(self).has_best,
            forall|k: int|
                0 <= k < old(self).population@.len() ==> final(self).best_fitness as int
                    >= fitness_of(#[trigger] old(self).population@[k]),
            exists|k: int|
                0 <= k < old(self).population@.len() && final(self).best_fitness as int
                    == fitness_of(#[trigger] old(self).population@[k]),
            old(self).has_best ==> final(self).best_fitness >= old(self).best_fitness,
            final(self).streak as int == (if old(self).has_best && final(self).best_fitness == old(
                self,
            ).best_fitness {
                old(self).streak + 1
            } else {
                0int
            }),
            (final(self).phase is Converged) <==> final(self).streak
                >= old(self).config.stagnation_limit,
            converged == (final(self).phase is Converged),
            !converged ==> final(self).phase is Selected,
            final(self).generation as int == (if old(self).generation < u64::MAX {
                old(self).generation + 1
            } else {
                old(self).generation as int
            }),
    {
        proof {
            lemma_config_bounds(self.config);
        }
        let ghost wave = self.population@;
        sort_by_fitness_desc(&mut self.population);
        let best_now = self.population[0].fitness_milli;
        proof {
            broadcast use vstd::seq_lib::group_to_multiset_ensures;

            assert(self.population@.contains(self.population@[0]));
            assert(wave.to_multiset().count(self.population@[0]) > 0);
            assert(wave.contains(self.population@[0]));
            if old(self).has_best {
                let k = choose|k: int|
                    0 <= k < wave.len() && fitness_of(wave[k]) == old(self).best_fitness as int;
                assert(fitness_of(self.population@[0]) >= fitness_of(wave[k]));
            }
        }
        let ghost sorted_wave = self.population@;
        self.population.truncate(self.config.elite_count);
        proof {
            assert(self.population@ == sorted_wave.subrange(0, self.config.elite_count as int));
            assert(fitness_of(self.population@[0]) == best_now as int);
            assert forall|k: int| 0 <= k < self.population@.len() implies (
            #[trigger] self.population@[k]).layout.wf() by {
                assert(self.population@[k] == sorted_wave[k]);
            }
            assert forall|i: int, j: int|
                0 <= i <= j < self.population@.len() implies fitness_of(self.population@[i])
                >= fitness_of(self.population@[j]) by {
                assert(self.population@[i] == sorted_wave[i]);
                assert(self.population@[j] == sorted_wave[j]);
            }
            broadcast use vstd::seq_lib::group_to_multiset_ensures;

            let elite = self.config.elite_count as int;
            let pre = sorted_wave.subrange(0, elite);
            let suf = sorted_wave.subrange(elite, sorted_wave.len() as int);
            assert(sorted_wave =~= pre + suf);
            vstd::seq_lib::lemma_multiset_commutative(pre, suf);
            assert(self.population@ =~= pre);
            assert forall|k: int| 0 <= k < self.population@.len() implies wave.contains(
                #[trigger] self.population@[k],
            ) by {
                assert(sorted_wave.contains(sorted_wave[k]));
                assert(wave.to_multiset().count(sorted_wave[k]) > 0);
            }
            assert forall|x: EvaluationResult|
                wave.to_multiset().count(x) > self.population@.to_multiset().count(x) implies
                fitness_of(x) <= fitness_of(self.population@[elite - 1]) by {
                assert(suf.to_multiset().count(x) > 0);
                assert(suf.contains(x));
                let w = choose|w: int| 0 <= w < suf.len() && suf[w] == x;
                assert(sorted_wave[elite + w] == x);
                assert(fitness_of(sorted_wave[elite - 1]) >= fitness_of(sorted_wave[elite + w]));
            }
        }
        if self.has_best && best_now == self.best_fitness {
            self.streak = self.streak + 1;
        } else {
            self.streak = 0;
        }
        self.has_best = true;
        self.best_fitness = best_now;
        if self.generation < u64::MAX {
            self.generation = self.generation + 1;
        }
        if self.streak >= self.config.stagnation_limit {
            self.phase = Phase::Converged;
            true
        } else {
            self.phase = Phase::Selected;
            false
        }
    }

    /// Breeds the next wave: each elite spawns its number of mutated
    /// offspring, and the controller goes back to gathering their results.
    pub fn breed(&mut self, rng: &mut rand::rngs::StdRng) -> (offspring: Vec<Layout>)
        requires
            old(self).wf(),
            old(self).phase is Selected,
        ensures
            final(self).wf(),
            final(self).phase is Gathering,
            final(self).config == old(self).config,
            final(self).population@ == old(self).population@,
            final(self).best_fitness == old(self).best_fitness,
            final(self).has_best == old(self).has_best,
            final(self).streak == old(self).streak,
            final(self).generation == old(self).generation,
            offspring@.len() == (old(self).config.elite_count as int) * (
            old(self).config.offspring_per_elite as int),
            forall|k: int| 0 <= k < offspring@.len() ==> (#[trigger] offspring@[k]).wf(),
    {
        proof {
            lemma_config_bounds(self.config);
        }
        let elite = self.config.elite_count;
        let per = self.config.offspring_per_elite;
        let mut offspring: Vec<Layout> = Vec::new();
        proof {
            assert(0int * per as int == 0) by (nonlinear_arith);
        }
        for i in 0..elite
            invariant
                self == old(self),
                self.wf(),
                self.phase is Selected,
                elite == self.config.elite_count,
                per == self.config.offspring_per_elite,
                self.population@.len() == elite,
                offspring@.len() == i as int * per as int,
                forall|k: int| 0 <= k < offspring@.len() ==> (#[trigger] offspring@[k]).wf(),
        {
            for j in 0..per
                invariant
                    self == old(self),
                    self.wf(),
                    self.phase is Selected,
                    i < elite,
                    elite == self.config.elite_count,
                    per == self.config.offspring_per_elite,
                    self.population@.len() == elite,
                    offspring@.len() == i as int * per as int + j as int,
                    forall|k: int| 0 <= k < offspring@.len() ==> (#[trigger] offspring@[k]).wf(),
            {
                let child = mutate_layout(&self.population[i].layout, rng);
                offspring.push(child);
            }
            proof {
                assert((i as int + 1) * per as int == i as int * per as int + per as int)
                    by (nonlinear_arith);
            }
        }
        self.phase = Phase::Gathering;
        proof {
            if self.has_best {
                let k = choose|k: int|
                    0 <= k < old(self).population@.len() && fitness_of(
                        old(self).population@[k],
                    ) == old(self).best_fitness as int;
                assert(fitness_of(self.population@[k]) == self.best_fitness as int);
            }
        }
        offspring
    }
}

/// A fresh wave of uniformly random layouts for seeding a run.
pub fn seed_layouts(count: usize, rng: &mut rand::rngs::StdRng) -> (layouts: Vec<Layout>)
    ensures
        layouts@.len() == count,
        forall|k: int| 0 <= k < layouts@.len() ==> (#[trigger] layouts@[k]).wf(),
{
    let mut layouts: Vec<Layout> = Vec::new();
    for i in 0..count
        invariant
            layouts@.len() == i,
            forall|k: int| 0 <= k < layouts@.len() ==> (#[trigger] layouts@[k]).wf(),
    {
        layouts.push(Layout::random(rng));
    }
    layouts
}

} // verus!
