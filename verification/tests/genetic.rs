use evosim::crossover::{CrossoverMethod, UniformCrossover};
use evosim::chromosome::Chromosome;
use evosim::genetic::GeneticAlgorithm;
use evosim::individual::{Individual, TestIndividual};
use evosim::mutation::GaussianMutation;
use evosim::selection::{RouletteWheelSelection, SelectionMethod};
use evosim::statistics::Statistics;
use rand::SeedableRng;
use rand_chacha::ChaCha8Rng;

fn individual(genes: &[i64]) -> TestIndividual {
    TestIndividual::create(Chromosome::new(genes.to_vec()))
}

fn population() -> Vec<TestIndividual> {
    vec![
        individual(&[0, 0, 0]),                         // fitness = 0.0
        individual(&[1_000_000, 1_000_000, 1_000_000]), // fitness = 3.0
        individual(&[1_000_000, 2_000_000, 1_000_000]), // fitness = 4.0
        individual(&[1_000_000, 2_000_000, 4_000_000]), // fitness = 7.0
    ]
}

fn run_generations(n: usize) -> Vec<TestIndividual> {
    let mut rng = ChaCha8Rng::from_seed(Default::default());
    let ga = GeneticAlgorithm::new(
        RouletteWheelSelection::new(),
        UniformCrossover::new(),
        GaussianMutation::new(500_000, 500_000),
    );
    let mut population = population();
    for _ in 0..n {
        let (new_pop, _) = ga.evolve(&mut rng, &population);
        population = new_pop;
    }
    population
}

#[test]
fn lib_test() {
    let evolved = run_generations(10);

    // The population keeps its size, every genome keeps its length, and
    // the whole run is bit-reproducible from the seed.
    assert_eq!(evolved.len(), 4);
    for ind in &evolved {
        assert_eq!(ind.chromosome().len(), 3);
    }
    let again = run_generations(10);
    for (a, b) in evolved.iter().zip(again.iter()) {
        assert_eq!(a.chromosome().genes(), b.chromosome().genes());
        assert_eq!(a.fitness(), b.fitness());
    }

    // The evolved genomes differ from the originals: breeding happened.
    let initial = population();
    let mut any_changed = false;
    for (a, b) in evolved.iter().zip(initial.iter()) {
        if a.chromosome().genes() != b.chromosome().genes() {
            any_changed = true;
        }
    }
    assert!(any_changed);
}

#[test]
fn evolve_reports_the_incoming_fitness() {
    let mut rng = ChaCha8Rng::from_seed(Default::default());
    let ga = GeneticAlgorithm::new(
        RouletteWheelSelection::new(),
        UniformCrossover::new(),
        GaussianMutation::new(0, 0),
    );
    let pop = population();
    let (_, stats) = ga.evolve(&mut rng, &pop);
    assert_eq!(stats.min_fitness(), 0);
    assert_eq!(stats.max_fitness(), 7_000_000);
    // mean of 0.0, 3.0, 4.0, 7.0 is 3.5
    assert_eq!(stats.avg_fitness(), 3_500_000);
}

#[test]
fn crossover_mixes_only_parent_genes() {
    let mut rng = ChaCha8Rng::from_seed(Default::default());
    let parent_a = Chromosome::new((1..=100).map(|v: i64| v * 1_000_000).collect());
    let parent_b = Chromosome::new((1..=100).map(|v: i64| -v * 1_000_000).collect());
    let child = UniformCrossover::new().crossover(&mut rng, &parent_a, &parent_b);

    assert_eq!(child.len(), 100);
    let mut from_a = 0;
    let mut from_b = 0;
    for i in 0..child.len() {
        let g = child.gene(i);
        assert!(g == parent_a.gene(i) || g == parent_b.gene(i));
        if g == parent_a.gene(i) {
            from_a += 1;
        } else {
            from_b += 1;
        }
    }
    // A fair coin picks a healthy share from each parent.
    assert!(from_a > 20 && from_b > 20);
}

#[test]
fn crossover_is_reproducible_from_the_seed() {
    let parent_a = Chromosome::new((1..=50).map(|v: i64| v * 1_000_000).collect());
    let parent_b = Chromosome::new((1..=50).map(|v: i64| -v * 1_000_000).collect());
    let mut rng1 = ChaCha8Rng::from_seed(Default::default());
    let child1 = UniformCrossover::new().crossover(&mut rng1, &parent_a, &parent_b);
    let mut rng2 = ChaCha8Rng::from_seed(Default::default());
    let child2 = UniformCrossover::new().crossover(&mut rng2, &parent_a, &parent_b);
    assert_eq!(child1.genes(), child2.genes());
}

#[test]
fn selection_with_all_zero_fitness_is_roughly_uniform() {
    let mut rng = ChaCha8Rng::from_seed(Default::default());
    let method = RouletteWheelSelection::default();
    let fitnesses: Vec<i64> = vec![0, 0, 0, 0];
    let mut counts = [0usize; 4];
    for _ in 0..4000 {
        let idx = method.select(&mut rng, &fitnesses);
        counts[idx] += 1;
    }
    for &c in counts.iter() {
        assert!(c > 800 && c < 1200, "counts were {:?}", counts);
    }
}

#[test]
fn selection_prefers_the_fitter() {
    let mut rng = ChaCha8Rng::from_seed(Default::default());
    let method = RouletteWheelSelection::default();
    // weights 1.0, 2.0, 4.0
    let fitnesses: Vec<i64> = vec![1_000_000, 2_000_000, 4_000_000];
    let mut counts = [0usize; 3];
    for _ in 0..7000 {
        let idx = method.select(&mut rng, &fitnesses);
        counts[idx] += 1;
    }
    assert!(counts[0] < counts[1] && counts[1] < counts[2], "counts were {:?}", counts);
    // Roughly proportional: about 1000, 2000, 4000 draws.
    assert!(counts[0] > 700 && counts[0] < 1300, "counts were {:?}", counts);
    assert!(counts[2] > 3600 && counts[2] < 4400, "counts were {:?}", counts);
}

#[test]
fn selection_never_lands_on_a_zero_weight_slot() {
    let mut rng = ChaCha8Rng::from_seed(Default::default());
    let method = RouletteWheelSelection::default();
    let fitnesses: Vec<i64> = vec![0, 5_000_000, 0];
    for _ in 0..200 {
        assert_eq!(method.select(&mut rng, &fitnesses), 1);
    }
}

#[test]
fn statistics_summarize_min_max_mean() {
    let population = vec![
        TestIndividual::new(30_000_000),
        TestIndividual::new(10_000_000),
        TestIndividual::new(20_000_000),
    ];
    let stats = Statistics::new(&population);
    assert_eq!(stats.min_fitness(), 10_000_000);
    assert_eq!(stats.max_fitness(), 30_000_000);
    assert_eq!(stats.avg_fitness(), 20_000_000);
}
