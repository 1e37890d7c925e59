//! Chance-gated mutation: each gene is touched with a configured
//! probability, and a touched gene moves by at most the configured
//! coefficient in either direction.

use vstd::prelude::*;

use crate::chromosome::Chromosome;
use crate::fx::{fx_add, fx_add_s, fx_mul, fx_mul_s, FX_ONE};
use crate::rng::{rng_below, rng_coin};

verus! {

pub trait MutationMethod {
    /// How one mutated gene may relate to the gene it replaces.
    spec fn gene_mutated(&self, before: i64, after: i64) -> bool;

    /// Perturb a child's genes in place: the genome's length never
    /// changes, and every gene's change is one that `gene_mutated`
    /// admits.
    fn mutate(&self, rng: &mut rand_chacha::ChaCha8Rng, child: &mut Chromosome)
        ensures
            final(child)@.len() == old(child)@.len(),
            forall|i: int|
                0 <= i < final(child)@.len() ==> #[trigger] self.gene_mutated(
                    old(child)@[i],
                    final(child)@[i],
                ),
    ;
}

/// A gene under Gaussian mutation stays unchanged, or moves by
/// `coefficient * u` for some magnitude draw `u` in `[0, 1)`, up or down.
pub open spec fn gaussian_gene_mutated(coeff: int, before: int, after: int) -> bool {
    after == before || (exists|u: int|
        0 <= u < FX_ONE && (after == fx_add_s(before, fx_mul_s(coeff, u)) || after == fx_add_s(
            before,
            -fx_mul_s(coeff, u),
        )))
}

#[derive(Clone, Copy, PartialEq, Eq, Structural, Debug)]
pub struct GaussianMutation {
    /// Probability of changing a gene, in millionths: zero touches no gene,
    /// one whole touches every gene.
    chance: i64,
    /// Magnitude of a change: a touched gene moves by at most this much,
    /// up or down.
    coeff: i64,
}

impl GaussianMutation {
    /// The chance is a probability: it stays within `[0, 1]`.
    #[verifier::type_invariant]
    spec fn chance_valid(self) -> bool {
        0 <= self.chance <= FX_ONE
    }

    pub closed spec fn chance_spec(&self) -> int {
        self.chance as int
    }

    pub closed spec fn coeff_spec(&self) -> int {
        self.coeff as int
    }

    /// A mutation method with the given chance and coefficient. A chance
    /// outside `[0, 1]` is no probability and is rejected by contract.
    pub fn new(chance: i64, coeff: i64) -> (r: Self)
        requires
            0 <= chance <= FX_ONE,
        ensures
            r.chance_spec() == chance,
            r.coeff_spec() == coeff,
    {
        Self { chance, coeff }
    }

    /// Perturb each gene independently: with the configured chance, move it
    /// by `coefficient * u` for a fresh uniform `u` in `[0, 1)`, with a
    /// fair random sign. A chance of zero, or a coefficient of zero, leaves
    /// the chromosome exactly unchanged.
    pub fn mutate_genes(&self, rng: &mut rand_chacha::ChaCha8Rng, child: &mut Chromosome)
        ensures
            final(child)@.len() == old(child)@.len(),
            self.chance_spec() == 0 ==> final(child)@ == old(child)@,
            self.coeff_spec() == 0 ==> final(child)@ == old(child)@,
            forall|i: int|
                0 <= i < final(child)@.len() ==> #[trigger] final(child)@[i] == old(child)@[i] || (
                exists|u: int|
                    0 <= u < FX_ONE && (final(child)@[i] == fx_add_s(
                        old(child)@[i] as int,
                        fx_mul_s(self.coeff_spec(), u),
                    ) || final(child)@[i] == fx_add_s(
                        old(child)@[i] as int,
                        -fx_mul_s(self.coeff_spec(), u),
                    ))),
    {
        let n = child.len();
        let ghost orig = child@;
        let mut i: usize = 0;
        proof {
            use_type_invariant(&*self);
        }
        while i < n
            invariant
                i <= n,
                n == child@.len(),
                orig.len() == n,
                0 <= self.chance <= FX_ONE,
                forall|j: int| i <= j < n ==> #[trigger] child@[j] == orig[j],
                self.chance_spec() == 0 ==> child@ == orig,
                self.coeff_spec() == 0 ==> child@ == orig,
                forall|j: int|
                    0 <= j < i ==> #[trigger] child@[j] == orig[j] || (exists|u: int|
                        0 <= u < FX_ONE && (child@[j] == fx_add_s(
                            orig[j] as int,
                            fx_mul_s(self.coeff_spec(), u),
                        ) || child@[j] == fx_add_s(
                            orig[j] as int,
                            -fx_mul_s(self.coeff_spec(), u),
                        ))),
            decreases n - i,
        {
            let sign_negative = rng_coin(rng);
            let gate = rng_below(rng, FX_ONE as u64);
            if gate < self.chance as u64 {
                let u = rng_below(rng, FX_ONE as u64) as i64;
                let step = fx_mul(self.coeff, u);
                let delta = if sign_negative {
                    -step
                } else {
                    step
                };
                if delta != 0 {
                    let ghost pre = child@;
                    let g = child.gene(i);
                    child.set_gene(i, fx_add(g, delta));
                    proof {
                        if sign_negative {
                            assert(child@[i as int] == fx_add_s(
                                orig[i as int] as int,
                                -fx_mul_s(self.coeff_spec(), u as int),
                            ));
                        } else {
                            assert(child@[i as int] == fx_add_s(
                                orig[i as int] as int,
                                fx_mul_s(self.coeff_spec(), u as int),
                            ));
                        }
                        assert(self.chance != 0);
                        assert(self.coeff != 0) by {
                            if self.coeff == 0 {
                                assert(fx_mul_s(0, u as int) == 0);
                            }
                        }
                    }
                }
            }
            i = i + 1;
        }
    }
}

impl MutationMethod for GaussianMutation {
    open spec fn gene_mutated(&self, before: i64, after: i64) -> bool {
        gaussian_gene_mutated(self.coeff_spec(), before as int, after as int)
    }

    fn mutate(&self, rng: &mut rand_chacha::ChaCha8Rng, child: &mut Chromosome) {
        let ghost before = child@;
        self.mutate_genes(rng, child);
        proof {
            assert forall|i: int| 0 <= i < child@.len() implies #[trigger] self.gene_mutated(
                before[i],
                child@[i],
            ) by {
                assert(gaussian_gene_mutated(self.coeff_spec(), before[i] as int, child@[i] as int));
            }
        }
    }
}

} // verus!
