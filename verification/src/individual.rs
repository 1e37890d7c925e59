//! The genetic-algorithm view of an agent: a fitness, a genome, and a
//! constructor that rebuilds a concrete agent from a bred genome.

use vstd::prelude::*;

use crate::chromosome::Chromosome;
use crate::fx::{fx_sum, fx_sum_s};

verus! {

pub trait Individual: Sized {
    spec fn fitness_spec(&self) -> int;

    spec fn chromosome_spec(&self) -> Seq<i64>;

    /// Whether this individual carries a genome that `chromosome` may hand
    /// out.
    spec fn has_chromosome(&self) -> bool;

    /// The fitness a freshly bred individual starts with, as a function of
    /// its genome.
    spec fn created_fitness(chromosome: Seq<i64>) -> int;

    fn fitness(&self) -> (r: i64)
        ensures
            r == self.fitness_spec(),
    ;

    fn chromosome(&self) -> (r: &Chromosome)
        requires
            self.has_chromosome(),
        ensures
            r@ == self.chromosome_spec(),
    ;

    fn create(chromosome: Chromosome) -> (r: Self)
        ensures
            r.chromosome_spec() == chromosome@,
            r.has_chromosome(),
            r.fitness_spec() == Self::created_fitness(chromosome@),
    ;
}

/// A minimal individual for exercising the genetic algorithm: either a bare
/// fitness, or a genome whose fitness is the saturating sum of its genes.
pub enum TestIndividual {
    WithChromosome { chromosome: Chromosome },
    WithFitness { fitness: i64 },
}

impl TestIndividual {
    pub fn new(fitness: i64) -> (r: Self)
        ensures
            r.fitness_spec() == fitness,
    {
        Self::WithFitness { fitness }
    }
}

impl Individual for TestIndividual {
    open spec fn fitness_spec(&self) -> int {
        match self {
            Self::WithChromosome { chromosome } => fx_sum_s(chromosome@),
            Self::WithFitness { fitness } => *fitness as int,
        }
    }

    open spec fn chromosome_spec(&self) -> Seq<i64> {
        match self {
            Self::WithChromosome { chromosome } => chromosome@,
            Self::WithFitness { .. } => Seq::empty(),
        }
    }

    open spec fn has_chromosome(&self) -> bool {
        self is WithChromosome
    }

    /// A bred test individual scores the saturating sum of its genes.
    open spec fn created_fitness(chromosome: Seq<i64>) -> int {
        fx_sum_s(chromosome)
    }

    fn fitness(&self) -> (r: i64) {
        match self {
            Self::WithChromosome { chromosome } => fx_sum(chromosome.genes()),
            Self::WithFitness { fitness } => *fitness,
        }
    }

    fn chromosome(&self) -> (r: &Chromosome) {
        match self {
            Self::WithChromosome { chromosome } => chromosome,
            Self::WithFitness { .. } => {
                proof {
                    assert(false);
                }
                unreached()
            },
        }
    }

    fn create(chromosome: Chromosome) -> (r: Self) {
        Self::WithChromosome { chromosome }
    }
}

} // verus!
