//! The genetic-algorithm driver: one generational step over a population.

use vstd::prelude::*;

use crate::chromosome::Chromosome;
use crate::crossover::CrossoverMethod;
use crate::individual::Individual;
use crate::mutation::MutationMethod;
use crate::selection::SelectionMethod;
use crate::statistics::{fitness_seq, stats_of, Statistics};

verus! {

/// The child gene was bred from the two parent genes: it is one of them,
/// changed only as the mutation strategy admits.
pub open spec fn gene_bred<M: MutationMethod>(
    m: M,
    a_gene: i64,
    b_gene: i64,
    child_gene: i64,
) -> bool {
    exists|mid: i64| (mid == a_gene || mid == b_gene) && #[trigger] m.gene_mutated(mid, child_gene)
}

/// The child genome was bred from the two parent genomes: each gene came
/// from one parent or the other at the same position, and then changed
/// only as the mutation strategy admits.
pub open spec fn offspring_of<M: MutationMethod>(
    m: M,
    child: Seq<i64>,
    parent_a: Seq<i64>,
    parent_b: Seq<i64>,
) -> bool {
    &&& child.len() == parent_a.len()
    &&& parent_a.len() == parent_b.len()
    &&& forall|g: int|
        0 <= g < child.len() ==> gene_bred(m, parent_a[g], parent_b[g], #[trigger] child[g])
}

/// The child genome was bred from some pair of members of the given
/// population (possibly the same member twice).
pub open spec fn bred_from_population<M: MutationMethod, I: Individual>(
    m: M,
    child: Seq<i64>,
    population: Seq<I>,
) -> bool {
    exists|pa: int, pb: int|
        0 <= pa < population.len() && 0 <= pb < population.len() && #[trigger] offspring_of(
            m,
            child,
            population[pa].chromosome_spec(),
            population[pb].chromosome_spec(),
        )
}

/// A driver over one selection, one crossover and one mutation strategy.
pub struct GeneticAlgorithm<S, C, M> {
    selection_method: S,
    crossover_method: C,
    mutation_method: M,
}

impl<S: SelectionMethod, C: CrossoverMethod, M: MutationMethod> GeneticAlgorithm<S, C, M> {
    pub closed spec fn selection_method_spec(&self) -> S {
        self.selection_method
    }

    pub closed spec fn crossover_method_spec(&self) -> C {
        self.crossover_method
    }

    pub closed spec fn mutation_method_spec(&self) -> M {
        self.mutation_method
    }

    pub fn new(selection_method: S, crossover_method: C, mutation_method: M) -> (r: Self)
        ensures
            r.selection_method_spec() == selection_method,
            r.crossover_method_spec() == crossover_method,
            r.mutation_method_spec() == mutation_method,
    {
        Self { selection_method, crossover_method, mutation_method }
    }

    /// One generational step. For each offspring slot, two parents are
    /// chosen by the selection strategy, their genomes crossed and the
    /// child mutated. The new population has the old one's size, every
    /// child genome has the parents' shared length, and the returned
    /// summary describes the fitness of the population that went in.
    pub fn evolve<I: Individual>(
        &self,
        rng: &mut rand_chacha::ChaCha8Rng,
        population: &Vec<I>,
    ) -> (r: (Vec<I>, Statistics))
        requires
            population@.len() >= 1,
            forall|i: int| 0 <= i < population@.len() ==> population@[i].has_chromosome(),
            forall|i: int| 0 <= i < population@.len() ==> 0 <= #[trigger] population@[i].fitness_spec(),
            forall|i: int|
                0 <= i < population@.len() ==> #[trigger] population@[i].chromosome_spec().len()
                    == population@[0].chromosome_spec().len(),
        ensures
            r.0@.len() == population@.len(),
            forall|k: int|
                0 <= k < r.0@.len() ==> #[trigger] r.0@[k].chromosome_spec().len()
                    == population@[0].chromosome_spec().len(),
            forall|k: int| 0 <= k < r.0@.len() ==> #[trigger] r.0@[k].has_chromosome(),
            forall|k: int|
                0 <= k < r.0@.len() ==> bred_from_population(
                    self.mutation_method_spec(),
                    (#[trigger] r.0@[k]).chromosome_spec(),
                    population@,
                ),
            stats_of(r.1, fitness_seq(population@)),
    {
        let n = population.len();
        let ghost glen = population@[0].chromosome_spec().len();
        let mut fitnesses: Vec<i64> = Vec::new();
        let mut i: usize = 0;
        while i < n
            invariant
                i <= n,
                n == population@.len(),
                forall|k: int|
                    0 <= k < population@.len() ==> 0 <= #[trigger] population@[k].fitness_spec(),
                fitnesses@.len() == i,
                forall|k: int|
                    0 <= k < i ==> #[trigger] fitnesses@[k] == population@[k].fitness_spec(),
            decreases n - i,
        {
            let f = population[i].fitness();
            fitnesses.push(f);
            i = i + 1;
        }
        proof {
            assert(forall|k: int| 0 <= k < n ==> 0 <= #[trigger] fitnesses@[k]);
        }
        let mut next: Vec<I> = Vec::new();
        let mut k: usize = 0;
        while k < n
            invariant
                k <= n,
                n == population@.len(),
                n >= 1,
                fitnesses@.len() == n,
                forall|j: int| 0 <= j < n ==> 0 <= #[trigger] fitnesses@[j],
                glen == population@[0].chromosome_spec().len(),
                forall|j: int| 0 <= j < population@.len() ==> population@[j].has_chromosome(),
                forall|j: int|
                    0 <= j < population@.len() ==> #[trigger] population@[j].chromosome_spec().len()
                        == glen,
                next@.len() == k,
                forall|j: int|
                    0 <= j < k ==> #[trigger] next@[j].chromosome_spec().len() == glen,
                forall|j: int| 0 <= j < k ==> #[trigger] next@[j].has_chromosome(),
                forall|j: int|
                    0 <= j < k ==> bred_from_population(
                        self.mutation_method_spec(),
                        (#[trigger] next@[j]).chromosome_spec(),
                        population@,
                    ),
            decreases n - k,
        {
            let pa = self.selection_method.select(rng, &fitnesses);
            let pb = self.selection_method.select(rng, &fitnesses);
            let parent_a: &Chromosome = population[pa].chromosome();
            let parent_b: &Chromosome = population[pb].chromosome();
            let mut child = self.crossover_method.crossover(rng, parent_a, parent_b);
            let ghost crossed = child@;
            self.mutation_method.mutate(rng, &mut child);
            let offspring = I::create(child);
            proof {
                let m = self.mutation_method_spec();
                let child_s = offspring.chromosome_spec();
                let pas = population@[pa as int].chromosome_spec();
                let pbs = population@[pb as int].chromosome_spec();
                assert(child_s.len() == pas.len());
                assert(pas.len() == pbs.len());
                assert(child_s == child@);
                assert forall|g: int| 0 <= g < child_s.len() implies gene_bred(
                    m,
                    pas[g],
                    pbs[g],
                    #[trigger] child_s[g],
                ) by {
                    let mid0 = crossed[g];
                    assert(mid0 == pas[g] || mid0 == pbs[g]);
                    assert(m.gene_mutated(mid0, child_s[g]));
                }
                assert(offspring_of(m, child_s, pas, pbs));
            }
            let ghost pre_next = next@;
            next.push(offspring);
            proof {
                assert(next@[k as int] == offspring);
                assert(forall|j: int| 0 <= j < k ==> #[trigger] next@[j] == pre_next[j]);
                assert(offspring_of(
                    self.mutation_method_spec(),
                    next@[k as int].chromosome_spec(),
                    population@[pa as int].chromosome_spec(),
                    population@[pb as int].chromosome_spec(),
                ));
                assert(bred_from_population(
                    self.mutation_method_spec(),
                    next@[k as int].chromosome_spec(),
                    population@,
                ));
            }
            k = k + 1;
        }
        let stats = Statistics::new(population);
        (next, stats)
    }
}

} // verus!
