//! A single neuron: one bias and one weight per input.

use vstd::prelude::*;

use crate::fx::{fx_add, fx_add_s, fx_mul, fx_mul_s, FX_ONE};
use crate::rng::rng_range;

verus! {

/// The mathematical content of a neuron.
pub struct NeuronView {
    pub bias: i64,
    pub weights: Seq<i64>,
}

pub struct Neuron {
    bias: i64,
    weights: Vec<i64>,
}

impl View for Neuron {
    type V = NeuronView;

    closed spec fn view(&self) -> NeuronView {
        NeuronView { bias: self.bias, weights: self.weights@ }
    }
}

/// The running sum of pairwise products, accumulated left to right from
/// zero, exactly as propagation computes it.
pub open spec fn dot_s(ws: Seq<i64>, xs: Seq<i64>) -> int
    decreases ws.len(),
{
    if ws.len() == 0 {
        0
    } else {
        fx_add_s(
            dot_s(ws.drop_last(), xs.drop_last()),
            fx_mul_s(ws.last() as int, xs[ws.len() - 1] as int),
        )
    }
}

/// The neuron's bias and every weight lie within `[-1, 1]`, the range
/// random initialization draws from.
pub open spec fn neuron_in_range(nv: NeuronView) -> bool {
    &&& -FX_ONE <= nv.bias <= FX_ONE
    &&& forall|k: int| 0 <= k < nv.weights.len() ==> -FX_ONE <= #[trigger] nv.weights[k] <= FX_ONE
}

/// Rectified linear unit: negative activations are cut to zero.
pub open spec fn relu_s(v: int) -> int {
    if v < 0 {
        0
    } else {
        v
    }
}

/// What a neuron returns on the given inputs: the bias plus the weighted
/// input sum, passed through the rectifier.
pub open spec fn neuron_out_s(n: NeuronView, inputs: Seq<i64>) -> int {
    relu_s(fx_add_s(n.bias as int, dot_s(n.weights, inputs)))
}

impl Neuron {
    pub fn new(bias: i64, weights: Vec<i64>) -> (r: Self)
        ensures
            r@.bias == bias,
            r@.weights == weights@,
    {
        Self { bias, weights }
    }

    pub fn bias(&self) -> (r: i64)
        ensures
            r == self@.bias,
    {
        self.bias
    }

    pub fn weights(&self) -> (r: &Vec<i64>)
        ensures
            r@ == self@.weights,
    {
        &self.weights
    }

    /// The neuron's response to an input vector of matching width.
    pub fn propagate(&self, inputs: &Vec<i64>) -> (r: i64)
        requires
            inputs@.len() == self@.weights.len(),
        ensures
            r == neuron_out_s(self@, inputs@),
    {
        let n = self.weights.len();
        let mut acc: i64 = 0;
        let mut i: usize = 0;
        while i < n
            invariant
                i <= n,
                n == self.weights@.len(),
                inputs@.len() == n,
                acc == dot_s(self.weights@.take(i as int), inputs@.take(i as int)),
            decreases n - i,
        {
            acc = fx_add(acc, fx_mul(self.weights[i], inputs[i]));
            proof {
                assert(self.weights@.take(i + 1).drop_last() =~= self.weights@.take(i as int));
                assert(inputs@.take(i + 1).drop_last() =~= inputs@.take(i as int));
                assert(self.weights@.take(i + 1).last() == self.weights@[i as int]);
            }
            i = i + 1;
        }
        proof {
            assert(self.weights@.take(n as int) =~= self.weights@);
            assert(inputs@.take(n as int) =~= inputs@);
        }
        let s = fx_add(self.bias, acc);
        if s < 0 {
            0
        } else {
            s
        }
    }

    /// A fresh neuron whose bias and weights are drawn uniformly from
    /// `[-1, 1]`.
    pub fn random(rng: &mut rand_chacha::ChaCha8Rng, input_size: usize) -> (r: Self)
        ensures
            r@.weights.len() == input_size,
            neuron_in_range(r@),
    {
        let bias = rng_range(rng, -FX_ONE, FX_ONE);
        let mut weights: Vec<i64> = Vec::new();
        let mut i: usize = 0;
        while i < input_size
            invariant
                i <= input_size,
                weights@.len() == i,
                forall|j: int| 0 <= j < i ==> -FX_ONE <= #[trigger] weights@[j] <= FX_ONE,
            decreases input_size - i,
        {
            let w = rng_range(rng, -FX_ONE, FX_ONE);
            weights.push(w);
            i = i + 1;
        }
        Self { bias, weights }
    }
}

} // verus!
