//! A read-only fitness summary of a population snapshot: its least,
//! greatest and mean fitness.

use vstd::prelude::*;

use crate::fx::{clip128, fx_clip, tdiv, tdiv128};
use crate::individual::Individual;

verus! {

#[derive(Clone, Copy, PartialEq, Eq, Structural, Debug)]
pub struct Statistics {
    min: i64,
    max: i64,
    avg: i64,
}

/// Each member's fitness, in population order.
pub open spec fn fitness_seq<I: Individual>(pop: Seq<I>) -> Seq<int> {
    Seq::new(pop.len(), |i: int| pop[i].fitness_spec())
}

/// The exact sum of a sequence of integers.
pub open spec fn int_sum(s: Seq<int>) -> int
    decreases s.len(),
{
    if s.len() == 0 {
        0
    } else {
        int_sum(s.drop_last()) + s.last()
    }
}

/// What a correct summary of the given fitness values states: the least
/// value, the greatest value, and the mean (truncated toward zero, and
/// saturated like every scalar).
pub open spec fn stats_of(r: Statistics, fits: Seq<int>) -> bool {
    &&& exists|i: int| 0 <= i < fits.len() && r.min_spec() == fits[i]
    &&& forall|i: int| 0 <= i < fits.len() ==> r.min_spec() <= #[trigger] fits[i]
    &&& exists|i: int| 0 <= i < fits.len() && r.max_spec() == fits[i]
    &&& forall|i: int| 0 <= i < fits.len() ==> r.max_spec() >= #[trigger] fits[i]
    &&& r.avg_spec() == fx_clip(tdiv(int_sum(fits), fits.len() as int))
}

impl Statistics {
    pub closed spec fn min_spec(&self) -> int {
        self.min as int
    }

    pub closed spec fn max_spec(&self) -> int {
        self.max as int
    }

    pub closed spec fn avg_spec(&self) -> int {
        self.avg as int
    }

    pub fn min_fitness(&self) -> (r: i64)
        ensures
            r == self.min_spec(),
    {
        self.min
    }

    pub fn max_fitness(&self) -> (r: i64)
        ensures
            r == self.max_spec(),
    {
        self.max
    }

    pub fn avg_fitness(&self) -> (r: i64)
        ensures
            r == self.avg_spec(),
    {
        self.avg
    }

    /// Summarize a non-empty population's fitness values.
    pub fn new<I: Individual>(population: &Vec<I>) -> (r: Self)
        requires
            population@.len() >= 1,
        ensures
            stats_of(r, fitness_seq(population@)),
    {
        let ghost fits = fitness_seq(population@);
        let n = population.len();
        let first = population[0].fitness();
        let mut mn: i64 = first;
        let mut mx: i64 = first;
        let mut sum: i128 = first as i128;
        let mut i: usize = 1;
        proof {
            assert(fits.take(1).drop_last() =~= Seq::<int>::empty());
            assert(fits.take(1).last() == fits[0]);
            assert(int_sum(Seq::<int>::empty()) == 0);
            assert(int_sum(fits.take(1)) == fits[0]);
            assert(1int * 0x8000_0000_0000_0000int == 0x8000_0000_0000_0000int) by (nonlinear_arith);
        }
        while i < n
            invariant
                1 <= i <= n,
                n == population@.len(),
                fits == fitness_seq(population@),
                fits.len() == n,
                exists|k: int| 0 <= k < i && mn == fits[k],
                forall|k: int| 0 <= k < i ==> mn <= #[trigger] fits[k],
                exists|k: int| 0 <= k < i && mx == fits[k],
                forall|k: int| 0 <= k < i ==> mx >= #[trigger] fits[k],
                sum == int_sum(fits.take(i as int)),
                -(i as int) * 0x8000_0000_0000_0000 <= sum as int,
                sum as int <= (i as int) * 0x8000_0000_0000_0000,
            decreases n - i,
        {
            let f = population[i].fitness();
            if f < mn {
                mn = f;
            }
            if f > mx {
                mx = f;
            }
            proof {
                assert(fits.take(i + 1).drop_last() =~= fits.take(i as int));
                assert(fits.take(i + 1).last() == fits[i as int]);
                assert((i + 1) * 0x8000_0000_0000_0000int == (i as int) * 0x8000_0000_0000_0000int
                    + 0x8000_0000_0000_0000int) by (nonlinear_arith);
                assert((i as int) * 0x8000_0000_0000_0000int <= 0xFFFF_FFFF_FFFF_FFFFint
                    * 0x8000_0000_0000_0000int) by (nonlinear_arith)
                    requires
                        0 <= i as int <= 0xFFFF_FFFF_FFFF_FFFFint,
                ;
            }
            sum = sum + f as i128;
            i = i + 1;
        }
        proof {
            assert(fits.take(n as int) =~= fits);
        }
        let avg = clip128(tdiv128(sum, n as i128));
        Self { min: mn, max: mx, avg }
    }
}

} // verus!
