//! Uniform crossover: each gene of the child comes from one parent or the
//! other, chosen by an independent fair coin.

use vstd::prelude::*;

use crate::chromosome::Chromosome;
use crate::rng::rng_coin;

verus! {

pub trait CrossoverMethod {
    /// Breed a child from two parents of equal genome length. The child has
    /// that same length, and each of its genes is the gene of one parent at
    /// the same position. Parents of unequal length indicate a topology
    /// inconsistency — a fatal condition the precondition excludes, so no
    /// child exists for them.
    fn crossover(
        &self,
        rng: &mut rand_chacha::ChaCha8Rng,
        parent_a: &Chromosome,
        parent_b: &Chromosome,
    ) -> (r: Chromosome)
        requires
            parent_a@.len() == parent_b@.len(),
        ensures
            r@.len() == parent_a@.len(),
            forall|i: int|
                0 <= i < r@.len() ==> #[trigger] r@[i] == parent_a@[i] || r@[i] == parent_b@[i],
    ;
}

#[derive(Clone, Copy, PartialEq, Eq, Structural, Debug)]
pub struct UniformCrossover;

impl UniformCrossover {
    pub fn new() -> (r: Self)
        ensures
            r == UniformCrossover,
    {
        Self
    }
}

impl Default for UniformCrossover {
    fn default() -> (r: Self)
        ensures
            r == UniformCrossover,
    {
        Self
    }
}

impl CrossoverMethod for UniformCrossover {
    fn crossover(
        &self,
        rng: &mut rand_chacha::ChaCha8Rng,
        parent_a: &Chromosome,
        parent_b: &Chromosome,
    ) -> (r: Chromosome)
    {
        let n = parent_a.len();
        let mut genes: Vec<i64> = Vec::new();
        let mut i: usize = 0;
        while i < n
            invariant
                i <= n,
                n == parent_a@.len(),
                n == parent_b@.len(),
                genes@.len() == i,
                forall|j: int|
                    0 <= j < i ==> #[trigger] genes@[j] == parent_a@[j] || genes@[j]
                        == parent_b@[j],
            decreases n - i,
        {
            let take_a = rng_coin(rng);
            if take_a {
                genes.push(parent_a.gene(i));
            } else {
                genes.push(parent_b.gene(i));
            }
            i = i + 1;
        }
        Chromosome::new(genes)
    }
}

} // verus!
