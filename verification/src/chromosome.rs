//! A chromosome: one individual's entire genome as a flat, ordered vector of
//! scalars. Crossover and mutation never change its length.

use vstd::prelude::*;

verus! {

pub struct Chromosome {
    genes: Vec<i64>,
}

impl View for Chromosome {
    type V = Seq<i64>;

    closed spec fn view(&self) -> Seq<i64> {
        self.genes@
    }
}

impl Chromosome {
    pub fn new(genes: Vec<i64>) -> (r: Self)
        ensures
            r@ == genes@,
    {
        Self { genes }
    }

    pub fn len(&self) -> (r: usize)
        ensures
            r == self@.len(),
    {
        self.genes.len()
    }

    pub fn gene(&self, index: usize) -> (r: i64)
        requires
            index < self@.len(),
        ensures
            r == self@[index as int],
    {
        self.genes[index]
    }

    pub fn set_gene(&mut self, index: usize, value: i64)
        requires
            index < old(self)@.len(),
        ensures
            final(self)@ == old(self)@.update(index as int, value),
    {
        self.genes.set(index, value);
    }

    pub fn genes(&self) -> (r: &Vec<i64>)
        ensures
            r@ == self@,
    {
        &self.genes
    }

    pub fn into_genes(self) -> (r: Vec<i64>)
        ensures
            r@ == self@,
    {
        self.genes
    }
}

} // verus!
