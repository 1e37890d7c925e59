//! The genetic-algorithm projection of an agent: fitness is the satiation
//! count, the genome is the brain's flattened weights.

use vstd::prelude::*;

use crate::animal::Animal;
use crate::brain::{brain_sizes, Brain};
use crate::chromosome::Chromosome;
use crate::eye::{Eye, EYE_CELLS};
use crate::fx::{clip128, fx_clip, FX_ONE};
use crate::individual::Individual;
use crate::network::{net_count, net_flat, net_matches};

verus! {

pub struct AnimalIndividual {
    fitness: i64,
    chromosome: Chromosome,
}

impl AnimalIndividual {
    /// Project an agent: its satiation count (as a scalar) and its genome.
    pub fn from_animal(animal: &Animal) -> (r: Self)
        ensures
            r.fitness_spec() == fx_clip(animal@.satiation * FX_ONE),
            0 <= r.fitness_spec(),
            r.chromosome_spec() == net_flat(animal@.brain),
            r.has_chromosome(),
    {
        let sat = animal.satiation();
        proof {
            assert((sat as i128) * (FX_ONE as i128) == (sat as int) * (FX_ONE as int)
                && 0 <= (sat as i128) * (FX_ONE as i128) <= 0x7FFF_FFFF_FFFF_FFFF_FFFF_FFFFint)
                by (nonlinear_arith)
                requires
                    0 <= sat as int <= 0xFFFF_FFFF_FFFF_FFFFint,
            ;
        }
        let fitness = clip128((sat as i128) * (FX_ONE as i128));
        Self { fitness, chromosome: animal.as_chromosome() }
    }

    /// Materialize an agent from this individual: a fresh random placement
    /// around a brain rebuilt from the genome, against the standard eye's
    /// topology. The satiation starts again at zero.
    pub fn into_animal(self, rng: &mut rand_chacha::ChaCha8Rng) -> (r: Animal)
        requires
            self.chromosome_spec().len() == net_count(brain_sizes(EYE_CELLS)),
        ensures
            r@.satiation == 0,
            r@.eye == Eye::default_view(),
            net_matches(r@.brain, brain_sizes(EYE_CELLS)),
            net_flat(r@.brain) == self.chromosome_spec(),
    {
        let eye = Eye::default();
        let brain_opt = Brain::from_chromosome(self.chromosome, &eye);
        match brain_opt {
            Some(brain) => Animal::with_brain(rng, eye, brain),
            None => {
                proof {
                    assert(false);
                }
                unreached()
            },
        }
    }
}

impl Individual for AnimalIndividual {
    closed spec fn fitness_spec(&self) -> int {
        self.fitness as int
    }

    closed spec fn chromosome_spec(&self) -> Seq<i64> {
        self.chromosome@
    }

    closed spec fn has_chromosome(&self) -> bool {
        true
    }

    /// A bred offspring has no fitness yet.
    open spec fn created_fitness(chromosome: Seq<i64>) -> int {
        0
    }

    fn fitness(&self) -> (r: i64) {
        self.fitness
    }

    fn chromosome(&self) -> (r: &Chromosome) {
        &self.chromosome
    }

    fn create(chromosome: Chromosome) -> (r: Self) {
        Self { fitness: 0, chromosome }
    }
}

} // verus!
