use evosim::neuron::Neuron;
use rand::SeedableRng;
use rand_chacha::ChaCha8Rng;

#[test]
fn neuron_random_test() {
    let mut rng = ChaCha8Rng::from_seed(Default::default());
    let neuron = Neuron::random(&mut rng, 4);

    assert!(neuron.bias() >= -1_000_000 && neuron.bias() <= 1_000_000);
    assert_eq!(neuron.weights().len(), 4);
    for &w in neuron.weights().iter() {
        assert!(w >= -1_000_000 && w <= 1_000_000);
    }

    // The draw is reproducible from the seed.
    let mut rng2 = ChaCha8Rng::from_seed(Default::default());
    let neuron2 = Neuron::random(&mut rng2, 4);
    assert_eq!(neuron.bias(), neuron2.bias());
    assert_eq!(neuron.weights(), neuron2.weights());
}

#[test]
fn neuron_propagate_test() {
    // bias 0.5, weights [-0.3, 0.8]
    let bias: i64 = 500_000;
    let weights: Vec<i64> = vec![-300_000, 800_000];
    let neuron = Neuron::new(bias, weights);

    // Strongly negative inputs are cut to zero by the rectifier.
    assert_eq!(neuron.propagate(&vec![-10_000_000, -10_000_000]), 0);

    // 0.5 * (-0.3) + 1.0 * 0.8 + 0.5 = 1.15, exact in the scalar model.
    assert_eq!(neuron.propagate(&vec![500_000, 1_000_000]), 1_150_000);
}
