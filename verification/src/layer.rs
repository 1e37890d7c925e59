//! A layer: an ordered row of neurons sharing one input vector.

use vstd::prelude::*;

use crate::neuron::{neuron_in_range, neuron_out_s, Neuron, NeuronView};

verus! {

pub struct Layer {
    neurons: Vec<Neuron>,
}

impl View for Layer {
    type V = Seq<NeuronView>;

    closed spec fn view(&self) -> Seq<NeuronView> {
        Seq::new(self.neurons@.len(), |i: int| self.neurons@[i]@)
    }
}

/// Every neuron of the layer expects `input_width` inputs.
pub open spec fn layer_uniform(l: Seq<NeuronView>, input_width: int) -> bool {
    forall|i: int| 0 <= i < l.len() ==> #[trigger] l[i].weights.len() == input_width
}

/// Every neuron of the layer has its bias and weights within `[-1, 1]`.
pub open spec fn layer_in_range(l: Seq<NeuronView>) -> bool {
    forall|i: int| 0 <= i < l.len() ==> neuron_in_range(#[trigger] l[i])
}

/// What a layer returns on the given inputs: each neuron's response, in
/// neuron order.
pub open spec fn layer_out_s(l: Seq<NeuronView>, inputs: Seq<i64>) -> Seq<i64> {
    Seq::new(l.len(), |i: int| neuron_out_s(l[i], inputs) as i64)
}

impl Layer {
    pub fn new(neurons: Vec<Neuron>) -> (r: Self)
        ensures
            r@.len() == neurons@.len(),
            forall|i: int| 0 <= i < neurons@.len() ==> r@[i] == #[trigger] neurons@[i]@,
    {
        Self { neurons }
    }

    pub fn num_neurons(&self) -> (r: usize)
        ensures
            r == self@.len(),
    {
        self.neurons.len()
    }

    pub fn neuron(&self, i: usize) -> (r: &Neuron)
        requires
            i < self@.len(),
        ensures
            r@ == self@[i as int],
    {
        &self.neurons[i]
    }

    /// The layer's response to an input vector that matches its width.
    pub fn propagate(&self, inputs: &Vec<i64>) -> (r: Vec<i64>)
        requires
            layer_uniform(self@, inputs@.len() as int),
        ensures
            r@ == layer_out_s(self@, inputs@),
            r@.len() == self@.len(),
    {
        let n = self.neurons.len();
        let mut out: Vec<i64> = Vec::new();
        let mut i: usize = 0;
        while i < n
            invariant
                i <= n,
                n == self.neurons@.len(),
                n == self@.len(),
                layer_uniform(self@, inputs@.len() as int),
                out@.len() == i,
                forall|j: int| 0 <= j < i ==> out@[j] == neuron_out_s(self@[j], inputs@) as i64,
            decreases n - i,
        {
            proof {
                assert(self@[i as int] == self.neurons@[i as int]@);
            }
            let v = self.neurons[i].propagate(inputs);
            out.push(v);
            i = i + 1;
        }
        proof {
            assert(out@ =~= layer_out_s(self@, inputs@));
        }
        out
    }

    /// A fresh layer of `output_neurons` random neurons, each expecting
    /// `input_neurons` inputs.
    pub fn random(
        rng: &mut rand_chacha::ChaCha8Rng,
        input_neurons: usize,
        output_neurons: usize,
    ) -> (r: Self)
        ensures
            r@.len() == output_neurons,
            layer_uniform(r@, input_neurons as int),
            layer_in_range(r@),
    {
        let mut neurons: Vec<Neuron> = Vec::new();
        let mut i: usize = 0;
        while i < output_neurons
            invariant
                i <= output_neurons,
                neurons@.len() == i,
                forall|j: int| 0 <= j < i ==> #[trigger] neurons@[j]@.weights.len()
                    == input_neurons,
                forall|j: int| 0 <= j < i ==> neuron_in_range(#[trigger] neurons@[j]@),
            decreases output_neurons - i,
        {
            let nrn = Neuron::random(rng, input_neurons);
            neurons.push(nrn);
            i = i + 1;
        }
        let r = Self { neurons };
        proof {
            assert(forall|j: int| 0 <= j < r@.len() ==> #[trigger] r@[j] == r.neurons@[j]@);
        }
        r
    }
}

} // verus!
