//! The brain: a feed-forward network of the fixed shape an eye dictates,
//! convertible to and from a flat chromosome.

use vstd::prelude::*;

use crate::chromosome::Chromosome;
use crate::eye::Eye;
use crate::layer::layer_uniform;
use crate::network::{
    lemma_matches_wf, net_count, net_flat, net_in_range, net_matches, net_out_s, topo_sizes,
    LayerTopology, Network,
};
use crate::neuron::NeuronView;

verus! {

/// The layer sizes an eye dictates: one input per cell, a hidden layer of
/// twice the cells, and two outputs (speed and rotation).
pub open spec fn brain_sizes(cells: usize) -> Seq<usize> {
    seq![cells, (2 * cells) as usize, 2usize]
}

pub struct Brain {
    network: Network,
}

impl View for Brain {
    type V = Seq<Seq<NeuronView>>;

    closed spec fn view(&self) -> Seq<Seq<NeuronView>> {
        self.network@
    }
}

impl Brain {
    /// The fixed topology for the given eye.
    pub fn topology(eye: &Eye) -> (r: Vec<LayerTopology>)
        ensures
            r@.len() == 3,
            topo_sizes(r@) == brain_sizes(eye@.cells),
    {
        let c = eye.cells();
        let mut v: Vec<LayerTopology> = Vec::new();
        v.push(LayerTopology { neurons: c });
        v.push(LayerTopology { neurons: 2 * c });
        v.push(LayerTopology { neurons: 2 });
        proof {
            assert(topo_sizes(v@) =~= brain_sizes(eye@.cells));
        }
        v
    }

    /// A fresh random brain of the eye's shape.
    pub fn random(rng: &mut rand_chacha::ChaCha8Rng, eye: &Eye) -> (r: Self)
        ensures
            net_matches(r@, brain_sizes(eye@.cells)),
            net_in_range(r@),
    {
        let topology = Self::topology(eye);
        Self { network: Network::random(rng, &topology) }
    }

    /// The brain's genome: its network's flattened weights.
    pub fn as_chromosome(&self) -> (r: Chromosome)
        ensures
            r@ == net_flat(self@),
    {
        Chromosome::new(self.network.weights())
    }

    /// A brain rebuilt from a genome, against the eye's fixed topology.
    /// This succeeds exactly when the genome has the expected length.
    pub fn from_chromosome(chromosome: Chromosome, eye: &Eye) -> (r: Option<Self>)
        ensures
            r is Some <==> chromosome@.len() == net_count(brain_sizes(eye@.cells)),
            r matches Some(b) ==> net_matches(b@, brain_sizes(eye@.cells)) && net_flat(b@)
                == chromosome@,
    {
        let topology = Self::topology(eye);
        match Network::from_weights(&topology, chromosome.genes()) {
            Some(network) => Some(Self { network }),
            None => None,
        }
    }

    /// The brain's response to an input vector matching its first layer's
    /// width.
    pub fn propagate(&self, inputs: Vec<i64>) -> (r: Vec<i64>)
        requires
            exists|sizes: Seq<usize>|
                #[trigger] net_matches(self@, sizes) && sizes.len() >= 2 && sizes[0]
                    == inputs@.len(),
        ensures
            r@ == net_out_s(self@, inputs@),
            r@.len() == self@[self@.len() - 1].len(),
    {
        proof {
            let sizes = choose|sizes: Seq<usize>|
                #[trigger] net_matches(self@, sizes) && sizes.len() >= 2 && sizes[0]
                    == inputs@.len();
            lemma_matches_wf(self@, sizes);
            assert(layer_uniform(self@[0], inputs@.len() as int));
        }
        self.network.propagate(inputs)
    }
}

} // verus!
