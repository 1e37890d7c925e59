use evosim::chromosome::Chromosome;
use evosim::mutation::{GaussianMutation, MutationMethod};
use rand::SeedableRng;
use rand_chacha::ChaCha8Rng;

fn original_genes() -> Vec<i64> {
    // 1.0 .. 5.0 in millionths
    vec![1_000_000, 2_000_000, 3_000_000, 4_000_000, 5_000_000]
}

fn actual(chance: i64, coeff: i64) -> Vec<i64> {
    let mut child = Chromosome::new(original_genes());
    let mut rng = ChaCha8Rng::from_seed(Default::default());
    GaussianMutation::new(chance, coeff).mutate(&mut rng, &mut child);
    child.into_genes()
}

#[test]
fn gaussian_does_not_change_the_original_chromosome() {
    assert_eq!(actual(0, 0), original_genes());
}

#[test]
fn given_zero_chance_and_nonzero_coefficient_does_not_change_the_original_chromosome() {
    assert_eq!(actual(0, 500_000), original_genes());
}

#[test]
fn given_fifty_fifty_chance_and_zero_coefficient_does_not_change_the_original_chromosome() {
    assert_eq!(actual(500_000, 0), original_genes());
}

#[test]
fn given_max_chance_and_zero_coefficient_does_not_change_the_original_chromosome() {
    assert_eq!(actual(1_000_000, 0), original_genes());
}

#[test]
fn slightly_changes_the_original_chromosome() {
    let actual = actual(500_000, 500_000);
    let original = original_genes();
    assert_eq!(actual.len(), original.len());
    // With a half chance, some genes move and some stay, and every move is
    // bounded by the coefficient.
    let changed = actual
        .iter()
        .zip(original.iter())
        .filter(|(a, o)| a != o)
        .count();
    assert!(changed > 0);
    assert!(changed < original.len());
    for (a, o) in actual.iter().zip(original.iter()) {
        assert!((a - o).abs() <= 500_000);
    }
}

#[test]
fn entirely_changes_the_original_chromosome() {
    // coefficient -2.6
    let actual = actual(1_000_000, -2_600_000);
    let original = original_genes();
    assert_eq!(actual.len(), original.len());
    for (a, o) in actual.iter().zip(original.iter()) {
        assert_ne!(a, o);
        assert!((a - o).abs() <= 2_600_000);
    }
}

#[test]
fn mutation_is_reproducible_from_the_seed() {
    assert_eq!(actual(500_000, 500_000), actual(500_000, 500_000));
}
