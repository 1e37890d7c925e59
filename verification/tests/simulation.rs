use evosim::animal::Animal;
use evosim::animal_individual::AnimalIndividual;
use evosim::individual::Individual;
use evosim::simulation::{Config, Simulation};
use rand::SeedableRng;
use rand_chacha::ChaCha8Rng;

const UNIT: i64 = 1_000_000;

fn short_config() -> Config {
    Config { generation_length: 5, ..Config::default() }
}

#[test]
fn world_positions_stay_on_the_torus() {
    let mut rng = ChaCha8Rng::from_seed(Default::default());
    let mut sim = Simulation::random(&mut rng);
    for _ in 0..100 {
        let result = sim.step(&mut rng);
        assert!(result.is_none());
        for animal in sim.world().animals().iter() {
            let (x, y) = animal.position();
            assert!(0 <= x && x < UNIT);
            assert!(0 <= y && y < UNIT);
            let rot = animal.rotation();
            assert!(0 <= rot && rot < 6_283_184);
        }
        for food in sim.world().foods().iter() {
            let (x, y) = food.position();
            assert!(0 <= x && x < UNIT);
            assert!(0 <= y && y < UNIT);
        }
    }
}

#[test]
fn animals_actually_move() {
    let mut rng = ChaCha8Rng::from_seed(Default::default());
    let mut sim = Simulation::random(&mut rng);
    let before: Vec<(i64, i64)> = sim.world().animals().iter().map(|a| a.position()).collect();
    for _ in 0..10 {
        sim.step(&mut rng);
    }
    let after: Vec<(i64, i64)> = sim.world().animals().iter().map(|a| a.position()).collect();
    assert_ne!(before, after);
}

#[test]
fn a_generation_ends_exactly_on_schedule() {
    let mut rng = ChaCha8Rng::from_seed(Default::default());
    let mut sim = Simulation::with_config(short_config(), &mut rng);
    for _ in 0..5 {
        assert!(sim.step(&mut rng).is_none());
    }
    let stats = sim.step(&mut rng);
    assert!(stats.is_some());
    assert_eq!(sim.age(), 0);
    for animal in sim.world().animals().iter() {
        assert_eq!(animal.satiation(), 0);
    }
}

#[test]
fn train_fast_forwards_to_the_generation_boundary() {
    let mut rng = ChaCha8Rng::from_seed(Default::default());
    let mut sim = Simulation::with_config(short_config(), &mut rng);
    let stats = sim.train(&mut rng);
    assert_eq!(sim.age(), 0);
    assert!(stats.min_fitness() >= 0);
    assert!(stats.min_fitness() <= stats.avg_fitness());
    assert!(stats.avg_fitness() <= stats.max_fitness());
    assert_eq!(sim.world().animals().len(), 40);
    assert_eq!(sim.world().foods().len(), 60);
}

#[test]
fn runs_are_reproducible_from_the_seed() {
    let run = || {
        let mut rng = ChaCha8Rng::from_seed(Default::default());
        let mut sim = Simulation::with_config(short_config(), &mut rng);
        sim.train(&mut rng);
        sim.world()
            .animals()
            .iter()
            .map(|a| (a.position(), a.rotation()))
            .collect::<Vec<_>>()
    };
    assert_eq!(run(), run());
}

#[test]
fn animal_round_trips_through_its_individual() {
    let mut rng = ChaCha8Rng::from_seed(Default::default());
    let animal = Animal::random(&mut rng);
    let genome = animal.as_chromosome();
    let individual = AnimalIndividual::from_animal(&animal);
    assert_eq!(individual.fitness(), 0);
    let reborn = individual.into_animal(&mut rng);
    assert_eq!(reborn.as_chromosome().genes(), genome.genes());
    assert_eq!(reborn.satiation(), 0);
}

#[test]
fn fresh_animals_start_alike() {
    let mut rng = ChaCha8Rng::from_seed(Default::default());
    let animal = Animal::random(&mut rng);
    assert_eq!(animal.satiation(), 0);
    assert_eq!(animal.speed(), 2_000);
    // The standard topology: (1 + 9) * 18 + (1 + 18) * 2 weights.
    assert_eq!(animal.as_chromosome().len(), 218);
}
