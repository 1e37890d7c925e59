use evosim::network::{LayerTopology, Network};
use rand::SeedableRng;

fn topology() -> Vec<LayerTopology> {
    vec![LayerTopology { neurons: 3 }, LayerTopology { neurons: 2 }]
}

fn known_weights() -> Vec<i64> {
    // 0.1 .. 0.8 in millionths: two neurons of (bias + three weights) each.
    vec![
        100_000, 200_000, 300_000, 400_000, 500_000, 600_000, 700_000, 800_000,
    ]
}

#[test]
fn weights_test() {
    let network = Network::from_weights(&topology(), &known_weights()).unwrap();
    let actual = network.weights();
    assert_eq!(actual, known_weights());
}

#[test]
fn from_weights_test() {
    let weights = known_weights();
    let network = Network::from_weights(&topology(), &weights).unwrap();
    let actual = network.weights();
    assert_eq!(actual, weights);
}

#[test]
fn from_weights_rejects_one_too_few() {
    let mut weights = known_weights();
    weights.pop();
    assert!(Network::from_weights(&topology(), &weights).is_none());
}

#[test]
fn from_weights_rejects_one_too_many() {
    let mut weights = known_weights();
    weights.push(900_000);
    assert!(Network::from_weights(&topology(), &weights).is_none());
}

#[test]
fn from_weights_rejects_short_topology() {
    let topology = vec![LayerTopology { neurons: 3 }];
    let weights: Vec<i64> = Vec::new();
    assert!(Network::from_weights(&topology, &weights).is_none());
}

#[test]
fn random_network_round_trips() {
    let mut rng = rand_chacha::ChaCha8Rng::from_seed(Default::default());
    let topology = vec![
        LayerTopology { neurons: 4 },
        LayerTopology { neurons: 3 },
        LayerTopology { neurons: 2 },
    ];
    let network = Network::random(&mut rng, &topology);
    let flat = network.weights();
    // (1 + 4) * 3 + (1 + 3) * 2 scalars
    assert_eq!(flat.len(), 23);
    let rebuilt = Network::from_weights(&topology, &flat).unwrap();
    assert_eq!(rebuilt.weights(), flat);
}

#[test]
fn propagate_applies_layers_in_order() {
    // One layer, one neuron: bias 0.5, weights [-0.3, 0.8].
    let topology = vec![LayerTopology { neurons: 2 }, LayerTopology { neurons: 1 }];
    let weights: Vec<i64> = vec![500_000, -300_000, 800_000];
    let network = Network::from_weights(&topology, &weights).unwrap();
    let out = network.propagate(vec![500_000, 1_000_000]);
    assert_eq!(out, vec![1_150_000]);
}
