//! The simulation engine: one tick advances collisions, sensing and
//! thinking, and movement, in that order; after a fixed number of ticks
//! the population evolves and the tick counter restarts.

use vstd::prelude::*;

use crate::animal::{move_s, same_but_satiation, think_s, Animal, AnimalView};
use crate::animal_individual::AnimalIndividual;
use crate::brain::brain_sizes;
use crate::crossover::UniformCrossover;
use crate::eye::{foods_view, Eye, EYE_CELLS};
use crate::food::{food_in_unit, Food};
use crate::fx::{fx_clip, iabs, FX_LIM, FX_ONE};
use crate::genetic::{bred_from_population, offspring_of, GeneticAlgorithm};
use crate::individual::Individual;
use crate::mutation::GaussianMutation;
use crate::network::{lemma_flat_len, net_count, net_flat, net_matches};
use crate::selection::RouletteWheelSelection;
use crate::statistics::{fitness_seq, stats_of, Statistics};
use crate::trig::{dist, dist_s, FX_FRAC_PI_2};
use crate::world::{World, WORLD_ANIMALS, WORLD_FOODS};

verus! {

/// Ticks per generation.
pub const GENERATION_LENGTH: u64 = 2_500;

/// The slowest an agent may move: never zero, so nobody is stuck.
pub const SPEED_MIN: i64 = 1_000;

/// The fastest an agent may move.
pub const SPEED_MAX: i64 = 5_000;

/// The largest speed change one thought may request.
pub const SPEED_ACCEL: i64 = 200_000;

/// The largest turn one thought may request: a quarter turn.
pub const ROTATION_ACCEL: i64 = FX_FRAC_PI_2;

/// How close an agent must come to a food to eat it.
pub const EAT_RADIUS: i64 = 10_000;

/// The mutation chance of the standard genetic algorithm.
pub const MUTATION_CHANCE: i64 = 10_000;

/// The mutation coefficient of the standard genetic algorithm.
pub const MUTATION_COEFF: i64 = 300_000;

/// The longest generation a configuration may ask for.
pub const MAX_GENERATION_LENGTH: u64 = 1_000_000_000;

/// The tuning of one simulation, fixed at construction.
#[derive(Clone, Copy, PartialEq, Eq, Structural, Debug)]
pub struct Config {
    pub speed_min: i64,
    pub speed_max: i64,
    pub speed_accel: i64,
    pub rotation_accel: i64,
    pub generation_length: u64,
}

pub open spec fn config_wf(c: Config) -> bool {
    &&& iabs(c.speed_min as int) <= FX_LIM
    &&& iabs(c.speed_max as int) <= FX_LIM
    &&& 0 <= c.speed_accel <= FX_LIM
    &&& 0 <= c.rotation_accel <= FX_LIM
    &&& 1 <= c.generation_length <= MAX_GENERATION_LENGTH
}

/// The standard tuning.
pub open spec fn default_config() -> Config {
    Config {
        speed_min: SPEED_MIN,
        speed_max: SPEED_MAX,
        speed_accel: SPEED_ACCEL,
        rotation_accel: ROTATION_ACCEL,
        generation_length: GENERATION_LENGTH,
    }
}

impl Default for Config {
    fn default() -> (r: Self)
        ensures
            r == default_config(),
    {
        Config {
            speed_min: SPEED_MIN,
            speed_max: SPEED_MAX,
            speed_accel: SPEED_ACCEL,
            rotation_accel: ROTATION_ACCEL,
            generation_length: GENERATION_LENGTH,
        }
    }
}

/// The agent with one more food eaten.
pub open spec fn fed_s(a: AnimalView) -> AnimalView {
    AnimalView { satiation: (a.satiation + 1) as u64, ..a }
}

/// The agents' states, in order.
pub open spec fn animal_views(s: Seq<Animal>) -> Seq<AnimalView> {
    Seq::new(s.len(), |i: int| s[i]@)
}

/// The collision sweep can carry the world from `(a0, f0)` to `(a1, f1)`
/// when it starts at pair `(i, j)`: every (agent, food) pair is visited in
/// order and checked against the state as it then stands; a pair within
/// eating range feeds the agent and sends the food to some point of the
/// unit square, so a food already relocated earlier in the same sweep may
/// be met again by a later agent.
#[verifier::opaque]
pub open spec fn sweep_s(
    a0: Seq<AnimalView>,
    f0: Seq<(i64, i64)>,
    a1: Seq<AnimalView>,
    f1: Seq<(i64, i64)>,
    i: int,
    j: int,
) -> bool
    decreases a0.len() - i, f0.len() - j,
{
    if i < 0 || j < 0 || i >= a0.len() {
        a1 == a0 && f1 == f0
    } else if j >= f0.len() {
        sweep_s(a0, f0, a1, f1, i + 1, 0)
    } else if dist_s(a0[i].x as int, a0[i].y as int, f0[j].0 as int, f0[j].1 as int)
        <= EAT_RADIUS {
        exists|nf: (i64, i64)|
            food_in_unit(nf) && sweep_s(
                a0.update(i, fed_s(a0[i])),
                f0.update(j, nf),
                a1,
                f1,
                i,
                j + 1,
            )
    } else {
        sweep_s(a0, f0, a1, f1, i, j + 1)
    }
}

/// The deterministic rest of one tick: from the post-collision agent
/// states `am` and food positions `fm`, each agent thinks against `fm`
/// and then moves.
#[verifier::opaque]
pub open spec fn tick_rest_s(am: Seq<AnimalView>, fm: Seq<(i64, i64)>, c: Config) -> Seq<
    AnimalView,
> {
    Seq::new(
        am.len(),
        |k: int|
            move_s(
                think_s(
                    am[k],
                    fm,
                    c.speed_min as int,
                    c.speed_max as int,
                    c.speed_accel as int,
                    c.rotation_accel as int,
                ),
            ),
    )
}

/// One tick's observable content, up to the random draws: `am` and `fm`
/// are the agent states and food positions after some collision sweep
/// from the starting state. On an ordinary tick the final world is
/// exactly `am` thought against `fm` and moved, with the foods at `fm`;
/// on a generation-boundary tick the returned summary describes the
/// satiation counts that the sweep produced.
pub open spec fn step_trace(
    a0: Seq<Animal>,
    f0: Seq<Food>,
    c: Config,
    m: GaussianMutation,
    fin_a: Seq<Animal>,
    fin_f: Seq<Food>,
    r: Option<Statistics>,
    am: Seq<AnimalView>,
    fm: Seq<(i64, i64)>,
) -> bool {
    &&& sweep_s(animal_views(a0), foods_view(f0), am, fm, 0, 0)
    &&& (r is None ==> foods_view(fin_f) == fm && animal_views(fin_a) == tick_rest_s(am, fm, c))
    &&& (r matches Some(st) ==> stats_of(
        st,
        Seq::new(am.len() as nat, |k: int| fx_clip(am[k].satiation * FX_ONE)),
    ))
    &&& (r is Some ==> forall|l: int|
        0 <= l < fin_f.len() ==> food_in_unit((#[trigger] fin_f[l])@))
    &&& (r is Some ==> forall|k: int|
        0 <= k < fin_a.len() ==> animal_bred_from(
            m,
            net_flat((#[trigger] fin_a[k])@.brain),
            a0,
        ))
}

/// What the three phases of one tick leave behind, up to the random
/// draws: some collision sweep led to `am` and `fm`, the final foods are
/// `fm`, and the final agents are exactly `am` thought against `fm` and
/// moved — which touches neither satiation nor eye nor brain.
pub open spec fn advance_trace(
    a0: Seq<Animal>,
    f0: Seq<Food>,
    c: Config,
    fin_a: Seq<Animal>,
    fin_f: Seq<Food>,
    am: Seq<AnimalView>,
    fm: Seq<(i64, i64)>,
) -> bool {
    &&& sweep_s(animal_views(a0), foods_view(f0), am, fm, 0, 0)
    &&& foods_view(fin_f) == fm
    &&& fin_f.len() == f0.len()
    &&& animal_views(fin_a) == tick_rest_s(am, fm, c)
    &&& fin_a.len() == a0.len()
    &&& am.len() == fin_a.len()
    &&& fm.len() == fin_f.len()
    &&& forall|k: int|
        0 <= k < fin_a.len() ==> (#[trigger] fin_a[k]@).satiation <= a0[k]@.satiation + f0.len()
    &&& forall|k: int| 0 <= k < fin_a.len() ==> (#[trigger] fin_a[k]@).eye == a0[k]@.eye
    &&& forall|k: int| 0 <= k < fin_a.len() ==> (#[trigger] fin_a[k]@).brain == a0[k]@.brain
    &&& forall|k: int|
        0 <= k < fin_a.len() ==> (#[trigger] fin_a[k]@).satiation == am[k].satiation
}

/// The genome was bred, under the given mutation strategy, from some
/// pair of the given agents' genomes (possibly the same agent twice).
pub open spec fn animal_bred_from(
    m: GaussianMutation,
    child: Seq<i64>,
    parents: Seq<Animal>,
) -> bool {
    exists|pa: int, pb: int|
        0 <= pa < parents.len() && 0 <= pb < parents.len() && #[trigger] offspring_of(
            m,
            child,
            net_flat(parents[pa]@.brain),
            net_flat(parents[pb]@.brain),
        )
}

/// No agent stands within eating range of any food.
pub open spec fn no_collisions(animals: Seq<Animal>, foods: Seq<Food>) -> bool {
    forall|k: int, l: int|
        0 <= k < animals.len() && 0 <= l < foods.len() ==> dist_s(
            (#[trigger] animals[k])@.x as int,
            animals[k]@.y as int,
            (#[trigger] foods[l])@.0 as int,
            foods[l]@.1 as int,
        ) > EAT_RADIUS
}

pub struct Simulation {
    config: Config,
    world: World,
    ga: GeneticAlgorithm<RouletteWheelSelection, UniformCrossover, GaussianMutation>,
    age: u64,
}

/// What construction hands over: the standard world shape — the full
/// population of fresh, unfed agents and the full food supply inside the
/// unit square — driven by the standard genetic algorithm.
pub open spec fn standard_population(s: Simulation) -> bool {
    &&& s.animals_view().len() == WORLD_ANIMALS
    &&& s.foods_view().len() == WORLD_FOODS
    &&& forall|k: int|
        0 <= k < s.animals_view().len() ==> (#[trigger] s.animals_view()[k])@.satiation == 0
    &&& forall|l: int|
        0 <= l < s.foods_view().len() ==> food_in_unit((#[trigger] s.foods_view()[l])@)
    &&& s.ga_spec().selection_method_spec() == RouletteWheelSelection
    &&& s.ga_spec().crossover_method_spec() == UniformCrossover
    &&& s.ga_spec().mutation_method_spec().chance_spec() == MUTATION_CHANCE as int
    &&& s.ga_spec().mutation_method_spec().coeff_spec() == MUTATION_COEFF as int
}

impl Simulation {
    pub closed spec fn config_spec(&self) -> Config {
        self.config
    }

    pub closed spec fn ga_spec(&self) -> GeneticAlgorithm<
        RouletteWheelSelection,
        UniformCrossover,
        GaussianMutation,
    > {
        self.ga
    }

    pub closed spec fn age_spec(&self) -> u64 {
        self.age
    }

    pub closed spec fn animals_view(&self) -> Seq<Animal> {
        self.world.animals@
    }

    pub closed spec fn foods_view(&self) -> Seq<Food> {
        self.world.foods@
    }

    /// The running state stays sound: the tick counter within the
    /// generation, a non-empty population of standard-eyed agents whose
    /// satiation is bounded by what the food supply allows.
    pub closed spec fn wf(&self) -> bool {
        &&& config_wf(self.config)
        &&& self.age <= self.config.generation_length
        &&& 1 <= self.world.animals@.len()
        &&& self.world.foods@.len() <= 100
        &&& forall|i: int|
            0 <= i < self.world.animals@.len() ==> (#[trigger] self.world.animals@[i])@.satiation
                <= (self.age + 1) * 100
        &&& forall|i: int|
            0 <= i < self.world.animals@.len() ==> (#[trigger] self.world.animals@[i])@.eye
                == Eye::default_view()
        &&& forall|i: int|
            0 <= i < self.world.animals@.len() ==> net_matches(
                (#[trigger] self.world.animals@[i])@.brain,
                brain_sizes(EYE_CELLS),
            )
    }

    /// A fresh simulation with the standard tuning: a random world and the
    /// standard genetic algorithm.
    pub fn random(rng: &mut rand_chacha::ChaCha8Rng) -> (r: Self)
        ensures
            r.wf(),
            r.age_spec() == 0,
            r.config_spec() == default_config(),
            standard_population(r),
    {
        Self::with_config(Config::default(), rng)
    }

    /// A fresh simulation with the given tuning.
    pub fn with_config(config: Config, rng: &mut rand_chacha::ChaCha8Rng) -> (r: Self)
        requires
            config_wf(config),
        ensures
            r.wf(),
            r.age_spec() == 0,
            r.config_spec() == config,
            standard_population(r),
    {
        let world = World::random(rng);
        let ga = GeneticAlgorithm::new(
            RouletteWheelSelection::default(),
            UniformCrossover::default(),
            GaussianMutation::new(MUTATION_CHANCE, MUTATION_COEFF),
        );
        Self { config, world, ga, age: 0 }
    }

    pub fn world(&self) -> (r: &World)
        ensures
            r.animals_spec() == self.animals_view(),
            r.foods_spec() == self.foods_view(),
    {
        &self.world
    }

    pub fn age(&self) -> (r: u64)
        ensures
            r == self.age_spec(),
    {
        self.age
    }

    pub fn config(&self) -> (r: Config)
        ensures
            r == self.config_spec(),
    {
        self.config
    }

    /// Collision resolution: every (agent, food) pair within eating range,
    /// checked against the loop's current state, feeds the agent and sends
    /// the food to a fresh random spot. When nothing stands in range,
    /// nothing changes at all.
    #[verifier::loop_isolation(false)]
    fn process_collisions(&mut self, rng: &mut rand_chacha::ChaCha8Rng)
        requires
            forall|k: int|
                0 <= k < old(self).world.animals@.len() ==> (#[trigger] old(self).world.animals@[k])@.satiation <= u64::MAX - 100,
            old(self).world.foods@.len() <= 100,
        ensures
            final(self).world.animals@.len() == old(self).world.animals@.len(),
            final(self).world.foods@.len() == old(self).world.foods@.len(),
            forall|k: int|
                0 <= k < final(self).world.animals@.len() ==> same_but_satiation(
                    (#[trigger] final(self).world.animals@[k])@,
                    old(self).world.animals@[k]@,
                ),
            forall|k: int|
                0 <= k < final(self).world.animals@.len() ==> old(self).world.animals@[k]@.satiation
                    <= (#[trigger] final(self).world.animals@[k])@.satiation <= old(self).world.animals@[k]@.satiation + old(self).world.foods@.len(),
            forall|l: int|
                0 <= l < final(self).world.foods@.len() ==> (#[trigger] final(self).world.foods@[l]) == old(self).world.foods@[l] || food_in_unit(
                    final(self).world.foods@[l]@,
                ),
            no_collisions(old(self).world.animals@, old(self).world.foods@) ==> final(self).world.animals@ == old(self).world.animals@ && final(self).world.foods@ == old(self).world.foods@,
            sweep_s(
                animal_views(old(self).world.animals@),
                foods_view(old(self).world.foods@),
                animal_views(final(self).world.animals@),
                foods_view(final(self).world.foods@),
                0,
                0,
            ),
            final(self).config == old(self).config,
            final(self).age == old(self).age,
            final(self).ga == old(self).ga,
    {
        let ghost init_a = self.world.animals@;
        let ghost init_f = self.world.foods@;
        let ghost va0 = animal_views(init_a);
        let ghost vf0 = foods_view(init_f);
        let na = self.world.animals.len();
        let nf = self.world.foods.len();
        let mut i: usize = 0;
        while i < na
            invariant
                i <= na,
                self.world.animals@.len() == na,
                self.world.foods@.len() == nf,
                forall|k: int|
                    0 <= k < na ==> same_but_satiation(
                        (#[trigger] self.world.animals@[k])@,
                        init_a[k]@,
                    ),
                forall|k: int|
                    0 <= k < i ==> init_a[k]@.satiation <= (
                    #[trigger] self.world.animals@[k])@.satiation <= init_a[k]@.satiation + nf,
                forall|k: int|
                    i <= k < na ==> (#[trigger] self.world.animals@[k]) == init_a[k],
                forall|l: int|
                    0 <= l < nf ==> (#[trigger] self.world.foods@[l]) == init_f[l] || food_in_unit(
                        self.world.foods@[l]@,
                    ),
                no_collisions(init_a, init_f) ==> self.world.animals@ == init_a
                    && self.world.foods@ == init_f,
                forall|a1: Seq<AnimalView>, f1: Seq<(i64, i64)>|
                    #[trigger] sweep_s(
                        animal_views(self.world.animals@),
                        foods_view(self.world.foods@),
                        a1,
                        f1,
                        i as int,
                        0,
                    ) ==> sweep_s(va0, vf0, a1, f1, 0, 0),
                self.config == old(self).config,
                self.age == old(self).age,
                self.ga == old(self).ga,
            decreases na - i,
        {
            let mut j: usize = 0;
            while j < nf
                invariant
                    j <= nf,
                    i < na,
                    self.world.animals@.len() == na,
                    self.world.foods@.len() == nf,
                    forall|k: int|
                        0 <= k < na ==> same_but_satiation(
                            (#[trigger] self.world.animals@[k])@,
                            init_a[k]@,
                        ),
                    forall|k: int|
                        0 <= k < i ==> init_a[k]@.satiation <= (
                        #[trigger] self.world.animals@[k])@.satiation <= init_a[k]@.satiation + nf,
                    init_a[i as int]@.satiation <= self.world.animals@[i as int]@.satiation
                        <= init_a[i as int]@.satiation + j,
                    forall|k: int|
                        i < k < na ==> (#[trigger] self.world.animals@[k]) == init_a[k],
                    forall|l: int|
                        0 <= l < nf ==> (#[trigger] self.world.foods@[l]) == init_f[l]
                            || food_in_unit(self.world.foods@[l]@),
                    no_collisions(init_a, init_f) ==> self.world.animals@ == init_a
                        && self.world.foods@ == init_f,
                    forall|a1: Seq<AnimalView>, f1: Seq<(i64, i64)>|
                        #[trigger] sweep_s(
                            animal_views(self.world.animals@),
                            foods_view(self.world.foods@),
                            a1,
                            f1,
                            i as int,
                            j as int,
                        ) ==> sweep_s(va0, vf0, a1, f1, 0, 0),
                    self.config == old(self).config,
                    self.age == old(self).age,
                    self.ga == old(self).ga,
                decreases nf - j,
            {
                let ghost cur_a = animal_views(self.world.animals@);
                let ghost cur_f = foods_view(self.world.foods@);
                let (ax, ay) = self.world.animals[i].position();
                let (fx_, fy_) = self.world.foods[j].position();
                let d = dist(ax, ay, fx_, fy_);
                proof {
                    assert(cur_a[i as int] == self.world.animals@[i as int]@);
                    assert(cur_f[j as int] == self.world.foods@[j as int]@);
                }
                if d <= EAT_RADIUS {
                    self.world.animals[i].feed();
                    self.world.foods[j].relocate(rng);
                    proof {
                        reveal_with_fuel(sweep_s, 2);
                        if no_collisions(init_a, init_f) {
                            assert(false);
                        }
                        let nf_view = self.world.foods@[j as int]@;
                        assert(animal_views(self.world.animals@) =~= cur_a.update(
                            i as int,
                            fed_s(cur_a[i as int]),
                        ));
                        assert(foods_view(self.world.foods@) =~= cur_f.update(j as int, nf_view));
                        assert forall|a1: Seq<AnimalView>, f1: Seq<(i64, i64)>|
                            #[trigger] sweep_s(
                                animal_views(self.world.animals@),
                                foods_view(self.world.foods@),
                                a1,
                                f1,
                                i as int,
                                j + 1,
                            ) implies sweep_s(va0, vf0, a1, f1, 0, 0) by {
                            assert(sweep_s(
                                cur_a.update(i as int, fed_s(cur_a[i as int])),
                                cur_f.update(j as int, nf_view),
                                a1,
                                f1,
                                i as int,
                                j + 1,
                            ));
                            assert(sweep_s(cur_a, cur_f, a1, f1, i as int, j as int));
                        }
                    }
                } else {
                    proof {
                        reveal_with_fuel(sweep_s, 2);
                        assert forall|a1: Seq<AnimalView>, f1: Seq<(i64, i64)>|
                            #[trigger] sweep_s(
                                animal_views(self.world.animals@),
                                foods_view(self.world.foods@),
                                a1,
                                f1,
                                i as int,
                                j + 1,
                            ) implies sweep_s(va0, vf0, a1, f1, 0, 0) by {
                            assert(sweep_s(cur_a, cur_f, a1, f1, i as int, j as int));
                        }
                    }
                }
                j = j + 1;
            }
            proof {
                reveal_with_fuel(sweep_s, 2);
                assert forall|a1: Seq<AnimalView>, f1: Seq<(i64, i64)>|
                    #[trigger] sweep_s(
                        animal_views(self.world.animals@),
                        foods_view(self.world.foods@),
                        a1,
                        f1,
                        i + 1,
                        0,
                    ) implies sweep_s(va0, vf0, a1, f1, 0, 0) by {
                    assert(sweep_s(
                        animal_views(self.world.animals@),
                        foods_view(self.world.foods@),
                        a1,
                        f1,
                        i as int,
                        nf as int,
                    ));
                }
            }
            i = i + 1;
        }
        proof {
            reveal_with_fuel(sweep_s, 2);
            assert(sweep_s(
                animal_views(self.world.animals@),
                foods_view(self.world.foods@),
                animal_views(self.world.animals@),
                foods_view(self.world.foods@),
                na as int,
                0,
            ));
        }
    }

    /// Sensing and thinking: every agent sees the current foods, runs its
    /// brain, and steers. Exactly the `think_s` transition, agent by
    /// agent.
    #[verifier::loop_isolation(false)]
    fn process_brains(&mut self)
        requires
            config_wf(old(self).config),
        ensures
            final(self).world.animals@.len() == old(self).world.animals@.len(),
            final(self).world.foods@ == old(self).world.foods@,
            forall|k: int|
                0 <= k < final(self).world.animals@.len() ==> (#[trigger] final(self).world.animals@[k])@ == think_s(
                    old(self).world.animals@[k]@,
                    foods_view(old(self).world.foods@),
                    old(self).config.speed_min as int,
                    old(self).config.speed_max as int,
                    old(self).config.speed_accel as int,
                    old(self).config.rotation_accel as int,
                ),
            final(self).config == old(self).config,
            final(self).age == old(self).age,
            final(self).ga == old(self).ga,
    {
        let ghost init_a = self.world.animals@;
        let cfg = self.config;
        let na = self.world.animals.len();
        let mut i: usize = 0;
        while i < na
            invariant
                i <= na,
                self.world.animals@.len() == na,
                self.world.foods@ == old(self).world.foods@,
                cfg == old(self).config,
                forall|k: int|
                    0 <= k < i ==> (#[trigger] self.world.animals@[k])@ == think_s(
                        init_a[k]@,
                        foods_view(old(self).world.foods@),
                        cfg.speed_min as int,
                        cfg.speed_max as int,
                        cfg.speed_accel as int,
                        cfg.rotation_accel as int,
                    ),
                forall|k: int|
                    i <= k < na ==> (#[trigger] self.world.animals@[k]) == init_a[k],
                self.config == old(self).config,
                self.age == old(self).age,
                self.ga == old(self).ga,
            decreases na - i,
        {
            let w = &mut self.world;
            w.animals[i].think(
                &w.foods,
                cfg.speed_min,
                cfg.speed_max,
                cfg.speed_accel,
                cfg.rotation_accel,
            );
            i = i + 1;
        }
    }

    /// Movement integration: every agent advances along its heading and
    /// wraps around the torus. Exactly the `move_s` transition, agent by
    /// agent.
    #[verifier::loop_isolation(false)]
    fn process_movements(&mut self)
        ensures
            final(self).world.animals@.len() == old(self).world.animals@.len(),
            final(self).world.foods@ == old(self).world.foods@,
            forall|k: int|
                0 <= k < final(self).world.animals@.len() ==> (#[trigger] final(self).world.animals@[k])@ == move_s(old(self).world.animals@[k]@),
            final(self).config == old(self).config,
            final(self).age == old(self).age,
            final(self).ga == old(self).ga,
    {
        let ghost init_a = self.world.animals@;
        let na = self.world.animals.len();
        let mut i: usize = 0;
        while i < na
            invariant
                i <= na,
                self.world.animals@.len() == na,
                self.world.foods@ == old(self).world.foods@,
                forall|k: int|
                    0 <= k < i ==> (#[trigger] self.world.animals@[k])@ == move_s(init_a[k]@),
                forall|k: int|
                    i <= k < na ==> (#[trigger] self.world.animals@[k]) == init_a[k],
                self.config == old(self).config,
                self.age == old(self).age,
                self.ga == old(self).ga,
            decreases na - i,
        {
            self.world.animals[i].move_forward();
            i = i + 1;
        }
    }

    /// The evolution transition: project every agent into an individual,
    /// breed a new population of the same size, materialize fresh agents
    /// from the offspring, relocate all food, and restart the tick
    /// counter. Returns the fitness summary of the outgoing population.
    #[verifier::loop_isolation(false)]
    fn evolve(&mut self, rng: &mut rand_chacha::ChaCha8Rng) -> (r: Statistics)
        requires
            1 <= old(self).world.animals@.len(),
            forall|k: int|
                0 <= k < old(self).world.animals@.len() ==> (#[trigger] old(self).world.animals@[k])@.eye == Eye::default_view(),
            forall|k: int|
                0 <= k < old(self).world.animals@.len() ==> net_matches(
                    (#[trigger] old(self).world.animals@[k])@.brain,
                    brain_sizes(EYE_CELLS),
                ),
        ensures
            final(self).age == 0,
            final(self).world.animals@.len() == old(self).world.animals@.len(),
            final(self).world.foods@.len() == old(self).world.foods@.len(),
            forall|k: int|
                0 <= k < final(self).world.animals@.len() ==> (#[trigger] final(self).world.animals@[k])@.satiation == 0,
            forall|k: int|
                0 <= k < final(self).world.animals@.len() ==> (#[trigger] final(self).world.animals@[k])@.eye == Eye::default_view(),
            forall|k: int|
                0 <= k < final(self).world.animals@.len() ==> net_matches(
                    (#[trigger] final(self).world.animals@[k])@.brain,
                    brain_sizes(EYE_CELLS),
                ),
            forall|l: int|
                0 <= l < final(self).world.foods@.len() ==> food_in_unit(
                    (#[trigger] final(self).world.foods@[l])@,
                ),
            stats_of(
                r,
                Seq::new(
                    old(self).world.animals@.len() as nat,
                    |k: int| fx_clip(old(self).world.animals@[k]@.satiation * FX_ONE),
                ),
            ),
            forall|k: int|
                0 <= k < final(self).world.animals@.len() ==> animal_bred_from(
                    old(self).ga.mutation_method_spec(),
                    net_flat((#[trigger] final(self).world.animals@[k])@.brain),
                    old(self).world.animals@,
                ),
            final(self).config == old(self).config,
            final(self).ga == old(self).ga,
    {
        self.age = 0;
        let ghost glen = net_count(brain_sizes(EYE_CELLS));
        let na = self.world.animals.len();
        let mut individuals: Vec<AnimalIndividual> = Vec::new();
        let mut i: usize = 0;
        while i < na
            invariant
                i <= na,
                self.world.animals@.len() == na,
                individuals@.len() == i,
                forall|k: int|
                    0 <= k < i ==> (#[trigger] individuals@[k]).chromosome_spec().len() == glen,
                forall|k: int| 0 <= k < i ==> (#[trigger] individuals@[k]).has_chromosome(),
                forall|k: int| 0 <= k < i ==> 0 <= (#[trigger] individuals@[k]).fitness_spec(),
                forall|k: int|
                    0 <= k < i ==> (#[trigger] individuals@[k]).fitness_spec() == fx_clip(
                        self.world.animals@[k]@.satiation * FX_ONE,
                    ),
                forall|k: int|
                    0 <= k < i ==> (#[trigger] individuals@[k]).chromosome_spec() == net_flat(
                        self.world.animals@[k]@.brain,
                    ),
            decreases na - i,
        {
            let ind = AnimalIndividual::from_animal(&self.world.animals[i]);
            proof {
                lemma_flat_len(self.world.animals@[i as int]@.brain, brain_sizes(EYE_CELLS));
            }
            individuals.push(ind);
            i = i + 1;
        }
        let (evolved, stats) = self.ga.evolve(rng, &individuals);
        proof {
            assert(fitness_seq(individuals@) =~= Seq::new(
                self.world.animals@.len() as nat,
                |k: int| fx_clip(self.world.animals@[k]@.satiation * FX_ONE),
            ));
        }
        let ghost pop0 = evolved@;
        let mut offspring = evolved;
        let mut new_animals: Vec<Animal> = Vec::new();
        proof {
            assert(offspring@ =~= pop0.skip(0));
        }
        while offspring.len() > 0
            invariant
                new_animals@.len() + offspring@.len() == pop0.len(),
                pop0.len() == na,
                offspring@ =~= pop0.skip(new_animals@.len() as int),
                forall|k: int|
                    0 <= k < pop0.len() ==> (#[trigger] pop0[k]).chromosome_spec().len() == glen,
                forall|k: int|
                    0 <= k < new_animals@.len() ==> (#[trigger] new_animals@[k])@.satiation == 0,
                forall|k: int|
                    0 <= k < new_animals@.len() ==> (#[trigger] new_animals@[k])@.eye
                        == Eye::default_view(),
                forall|k: int|
                    0 <= k < new_animals@.len() ==> net_matches(
                        (#[trigger] new_animals@[k])@.brain,
                        brain_sizes(EYE_CELLS),
                    ),
                forall|k: int|
                    0 <= k < new_animals@.len() ==> net_flat((#[trigger] new_animals@[k])@.brain)
                        == pop0[k].chromosome_spec(),
            decreases offspring@.len(),
        {
            let ind = offspring.remove(0);
            proof {
                assert(ind == pop0[new_animals@.len() as int]);
            }
            let a = ind.into_animal(rng);
            new_animals.push(a);
            proof {
                assert(offspring@ =~= pop0.skip(new_animals@.len() as int));
            }
        }
        let ghost assigned = new_animals@;
        self.world.animals = new_animals;
        let nf = self.world.foods.len();
        let ghost pre_foods = self.world.foods@;
        let mut l: usize = 0;
        while l < nf
            invariant
                l <= nf,
                self.world.foods@.len() == nf,
                self.world.animals@.len() == na,
                forall|k: int|
                    0 <= k < na ==> (#[trigger] self.world.animals@[k])@.satiation == 0,
                forall|k: int|
                    0 <= k < na ==> (#[trigger] self.world.animals@[k])@.eye == Eye::default_view(),
                forall|k: int|
                    0 <= k < na ==> net_matches(
                        (#[trigger] self.world.animals@[k])@.brain,
                        brain_sizes(EYE_CELLS),
                    ),
                forall|m: int|
                    0 <= m < l ==> food_in_unit((#[trigger] self.world.foods@[m])@),
                self.world.animals@ == assigned,
                self.config == old(self).config,
                self.ga == old(self).ga,
                self.age == 0,
            decreases nf - l,
        {
            self.world.foods[l].relocate(rng);
            l = l + 1;
        }
        proof {
            let m = old(self).ga.mutation_method_spec();
            assert forall|k: int| 0 <= k < self.world.animals@.len() implies animal_bred_from(
                m,
                net_flat((#[trigger] self.world.animals@[k])@.brain),
                old(self).world.animals@,
            ) by {
                assert(bred_from_population(m, pop0[k].chromosome_spec(), individuals@));
                let (pa, pb) = choose|pa: int, pb: int|
                    0 <= pa < individuals@.len() && 0 <= pb < individuals@.len()
                        && #[trigger] offspring_of(
                        m,
                        pop0[k].chromosome_spec(),
                        individuals@[pa].chromosome_spec(),
                        individuals@[pb].chromosome_spec(),
                    );
                assert(offspring_of(
                    m,
                    net_flat(self.world.animals@[k]@.brain),
                    net_flat(old(self).world.animals@[pa]@.brain),
                    net_flat(old(self).world.animals@[pb]@.brain),
                ));
            }
        }
        stats
    }

    /// Advance one tick: collisions, then sensing and thinking, then
    /// movement; finally the generation bookkeeping. Returns the fitness
    /// summary exactly on the tick that crosses the generation length,
    /// which is when the population evolves and the counter restarts.
    /// The three phases of one tick, in order: collision resolution, then
    /// sensing and thinking, then movement integration.
    fn advance_world(&mut self, rng: &mut rand_chacha::ChaCha8Rng)
        requires
            forall|k: int|
                0 <= k < old(self).world.animals@.len() ==> (#[trigger] old(self).world.animals@[k])@.satiation <= u64::MAX - 100,
            old(self).world.foods@.len() <= 100,
            config_wf(old(self).config),
        ensures
            final(self).config == old(self).config,
            final(self).age == old(self).age,
            final(self).ga == old(self).ga,
            exists|am: Seq<AnimalView>, fm: Seq<(i64, i64)>|
                #[trigger] advance_trace(
                    old(self).world.animals@,
                    old(self).world.foods@,
                    old(self).config,
                    final(self).world.animals@,
                    final(self).world.foods@,
                    am,
                    fm,
                ),
    {
        self.process_collisions(rng);
        let ghost am = animal_views(self.world.animals@);
        let ghost fm = foods_view(self.world.foods@);
        self.process_brains();
        self.process_movements();
        proof {
            reveal(tick_rest_s);
            assert(foods_view(self.world.foods@) == fm);
            assert(animal_views(self.world.animals@) =~= tick_rest_s(am, fm, self.config));
            assert forall|k: int| 0 <= k < self.world.animals@.len() implies (
            #[trigger] self.world.animals@[k]@).satiation == am[k].satiation && self.world.animals@[k]@.eye == am[k].eye && self.world.animals@[k]@.brain == am[k].brain by {
                assert(animal_views(self.world.animals@)[k] == self.world.animals@[k]@);
                assert(animal_views(self.world.animals@)[k] == tick_rest_s(am, fm, self.config)[k]);
            }
            assert(advance_trace(
                old(self).world.animals@,
                old(self).world.foods@,
                old(self).config,
                self.world.animals@,
                self.world.foods@,
                am,
                fm,
            ));
        }
    }

    /// Advance one tick: collisions, then sensing and thinking, then
    /// movement; finally the generation bookkeeping. Returns the fitness
    /// summary exactly on the tick that crosses the generation length,
    /// which is when the population evolves and the counter restarts.
    #[verifier::rlimit(100)]
    pub fn step(&mut self, rng: &mut rand_chacha::ChaCha8Rng) -> (r: Option<Statistics>)
        requires
            old(self).wf(),
        ensures
            final(self).wf(),
            final(self).config_spec() == old(self).config_spec(),
            final(self).ga_spec() == old(self).ga_spec(),
            final(self).animals_view().len() == old(self).animals_view().len(),
            final(self).foods_view().len() == old(self).foods_view().len(),
            (r is Some) == (old(self).age_spec() + 1 > old(self).config_spec().generation_length as int),
            r is Some ==> final(self).age_spec() == 0 && forall|k: int|
                0 <= k < final(self).animals_view().len() ==> (#[trigger] final(self).animals_view()[k])@.satiation == 0,
            r is None ==> final(self).age_spec() == old(self).age_spec() + 1,
            exists|am: Seq<AnimalView>, fm: Seq<(i64, i64)>|
                #[trigger] step_trace(
                    old(self).animals_view(),
                    old(self).foods_view(),
                    old(self).config_spec(),
                    old(self).ga_spec().mutation_method_spec(),
                    final(self).animals_view(),
                    final(self).foods_view(),
                    r,
                    am,
                    fm,
                ),
    {
        proof {
            assert(forall|k: int|
                0 <= k < self.world.animals@.len() ==> (
                #[trigger] self.world.animals@[k])@.satiation <= (self.age + 1) * 100 <= (
                MAX_GENERATION_LENGTH + 1) * 100);
        }
        self.advance_world(rng);
        let ghost (am, fm) = choose|am: Seq<AnimalView>, fm: Seq<(i64, i64)>|
            #[trigger] advance_trace(
                old(self).world.animals@,
                old(self).world.foods@,
                old(self).config,
                self.world.animals@,
                self.world.foods@,
                am,
                fm,
            );
        self.age = self.age + 1;
        let result: Option<Statistics> = if self.age > self.config.generation_length {
            let ghost snap = self.world.animals@;
            let stats = self.evolve(rng);
            proof {
                assert forall|k: int| 0 <= k < snap.len() implies (#[trigger] snap[k]@).satiation
                    == am[k].satiation by {
                    assert(animal_views(snap)[k] == snap[k]@);
                }
                assert(Seq::new(snap.len() as nat, |k: int| fx_clip(snap[k]@.satiation * FX_ONE))
                    =~= Seq::new(am.len() as nat, |k: int| fx_clip(am[k].satiation * FX_ONE)));
                let mg = old(self).ga_spec().mutation_method_spec();
                let a0 = old(self).world.animals@;
                assert forall|k: int| 0 <= k < self.world.animals@.len() implies animal_bred_from(
                    mg,
                    net_flat((#[trigger] self.world.animals@[k])@.brain),
                    a0,
                ) by {
                    assert(animal_bred_from(
                        mg,
                        net_flat(self.world.animals@[k]@.brain),
                        snap,
                    ));
                    let (pa, pb) = choose|pa: int, pb: int|
                        0 <= pa < snap.len() && 0 <= pb < snap.len() && #[trigger] offspring_of(
                            mg,
                            net_flat(self.world.animals@[k]@.brain),
                            net_flat(snap[pa]@.brain),
                            net_flat(snap[pb]@.brain),
                        );
                    assert(snap[pa]@.brain == a0[pa]@.brain);
                    assert(snap[pb]@.brain == a0[pb]@.brain);
                    assert(offspring_of(
                        mg,
                        net_flat(self.world.animals@[k]@.brain),
                        net_flat(a0[pa]@.brain),
                        net_flat(a0[pb]@.brain),
                    ));
                }
            }
            Some(stats)
        } else {
            None
        };
        proof {
            assert(step_trace(
                old(self).animals_view(),
                old(self).foods_view(),
                old(self).config_spec(),
                old(self).ga_spec().mutation_method_spec(),
                self.world.animals@,
                self.world.foods@,
                result,
                am,
                fm,
            ));
            assert(exists|am2: Seq<AnimalView>, fm2: Seq<(i64, i64)>|
                #[trigger] step_trace(
                    old(self).animals_view(),
                    old(self).foods_view(),
                    old(self).config_spec(),
                    old(self).ga_spec().mutation_method_spec(),
                    self.world.animals@,
                    self.world.foods@,
                    result,
                    am2,
                    fm2,
                ));
        }
        result
    }

    /// Fast-forward to the end of the current generation: tick until the
    /// evolution fires, and hand back its fitness summary — the summary of
    /// the boundary tick itself, over a population of the standing size.
    pub fn train(&mut self, rng: &mut rand_chacha::ChaCha8Rng) -> (r: Statistics)
        requires
            old(self).wf(),
        ensures
            final(self).wf(),
            final(self).config_spec() == old(self).config_spec(),
            final(self).ga_spec() == old(self).ga_spec(),
            final(self).age_spec() == 0,
            final(self).animals_view().len() == old(self).animals_view().len(),
            final(self).foods_view().len() == old(self).foods_view().len(),
            forall|k: int|
                0 <= k < final(self).animals_view().len() ==> (#[trigger] final(self).animals_view()[k])@.satiation == 0,
            exists|pa0: Seq<Animal>, pf0: Seq<Food>, am: Seq<AnimalView>, fm: Seq<(i64, i64)>|
                pa0.len() == old(self).animals_view().len() && pf0.len() == old(self).foods_view().len() && #[trigger] step_trace(
                    pa0,
                    pf0,
                    old(self).config_spec(),
                    old(self).ga_spec().mutation_method_spec(),
                    final(self).animals_view(),
                    final(self).foods_view(),
                    Some(r),
                    am,
                    fm,
                ),
    {
        let mut result: Option<Statistics> = None;
        while result.is_none()
            invariant
                self.wf(),
                self.config_spec() == old(self).config_spec(),
                self.ga_spec() == old(self).ga_spec(),
                self.animals_view().len() == old(self).animals_view().len(),
                self.foods_view().len() == old(self).foods_view().len(),
                result is Some ==> self.age_spec() == 0 && forall|k: int|
                    0 <= k < self.animals_view().len() ==> (
                    #[trigger] self.animals_view()[k])@.satiation == 0,
                result is Some ==> exists|
                    pa0: Seq<Animal>,
                    pf0: Seq<Food>,
                    am: Seq<AnimalView>,
                    fm: Seq<(i64, i64)>,
                |
                    pa0.len() == old(self).animals_view().len() && pf0.len() == old(
                        self,
                    ).foods_view().len() && #[trigger] step_trace(
                        pa0,
                        pf0,
                        old(self).config_spec(),
                        old(self).ga_spec().mutation_method_spec(),
                        self.animals_view(),
                        self.foods_view(),
                        result,
                        am,
                        fm,
                    ),
            decreases
                    (if result is Some {
                        0int
                    } else {
                        1int
                    }),
                    self.config_spec().generation_length + 1 - self.age_spec(),
        {
            let ghost pre_a = self.animals_view();
            let ghost pre_f = self.foods_view();
            let step_result = self.step(rng);
            proof {
                if step_result is Some {
                    let (am2, fm2) = choose|am2: Seq<AnimalView>, fm2: Seq<(i64, i64)>|
                        #[trigger] step_trace(
                            pre_a,
                            pre_f,
                            old(self).config_spec(),
                            old(self).ga_spec().mutation_method_spec(),
                            self.animals_view(),
                            self.foods_view(),
                            step_result,
                            am2,
                            fm2,
                        );
                    assert(pre_a.len() == old(self).animals_view().len());
                    assert(pre_f.len() == old(self).foods_view().len());
                    assert(step_trace(
                        pre_a,
                        pre_f,
                        old(self).config_spec(),
                        old(self).ga_spec().mutation_method_spec(),
                        self.animals_view(),
                        self.foods_view(),
                        step_result,
                        am2,
                        fm2,
                    ));
                }
            }
            result = step_result;
        }
        let stats = match result {
            Some(stats) => stats,
            None => {
                proof {
                    assert(false);
                }
                unreached()
            },
        };
        proof {
            let (pa0, pf0, am3, fm3) = choose|
                pa0: Seq<Animal>,
                pf0: Seq<Food>,
                am3: Seq<AnimalView>,
                fm3: Seq<(i64, i64)>,
            |
                pa0.len() == old(self).animals_view().len() && pf0.len() == old(
                    self,
                ).foods_view().len() && #[trigger] step_trace(
                    pa0,
                    pf0,
                    old(self).config_spec(),
                    old(self).ga_spec().mutation_method_spec(),
                    self.animals_view(),
                    self.foods_view(),
                    result,
                    am3,
                    fm3,
                );
            assert(step_trace(
                pa0,
                pf0,
                old(self).config_spec(),
                old(self).ga_spec().mutation_method_spec(),
                self.animals_view(),
                self.foods_view(),
                Some(stats),
                am3,
                fm3,
            ));
        }
        stats
    }
}

} // verus!
