//! Fitness-proportionate (roulette-wheel) selection.

use vstd::prelude::*;

use crate::rng::{rng_below, rng_below_wide};

verus! {

pub trait SelectionMethod {
    /// Choose one population slot, given every member's fitness. Any slot
    /// may come back, whatever the weights; the choice never fails, also
    /// when every fitness is zero. As long as any weight is positive, the
    /// chosen slot has positive weight.
    fn select(&self, rng: &mut rand_chacha::ChaCha8Rng, fitnesses: &Vec<i64>) -> (r: usize)
        requires
            fitnesses@.len() >= 1,
            forall|i: int| 0 <= i < fitnesses@.len() ==> 0 <= #[trigger] fitnesses@[i],
        ensures
            r < fitnesses@.len(),
            weight_total_s(fitnesses@) > 0 ==> 0 < fitnesses@[r as int],
    ;
}

/// The exact sum of the weights, unsaturated.
pub open spec fn weight_total_s(fits: Seq<i64>) -> int
    decreases fits.len(),
{
    if fits.len() == 0 {
        0
    } else {
        weight_total_s(fits.drop_last()) + fits.last()
    }
}

/// Which slot a wheel draw of `x` lands on: the first index whose running
/// weight sum exceeds `x`.
pub open spec fn wheel_pick_s(fits: Seq<i64>, x: int) -> int
    decreases fits.len(),
{
    if fits.len() == 0 {
        0
    } else if x < fits[0] {
        0
    } else {
        1 + wheel_pick_s(fits.drop_first(), x - fits[0])
    }
}

proof fn lemma_total_head(s: Seq<i64>)
    requires
        s.len() >= 1,
    ensures
        weight_total_s(s) == s[0] + weight_total_s(s.drop_first()),
    decreases s.len(),
{
    if s.len() == 1 {
        assert(s.drop_first() =~= Seq::<i64>::empty());
        assert(s.drop_last() =~= Seq::<i64>::empty());
    } else {
        lemma_total_head(s.drop_last());
        assert(s.drop_last().drop_first() =~= s.drop_first().drop_last());
        assert(s.drop_last()[0] == s[0]);
        assert(s.drop_first().last() == s.last());
        assert(weight_total_s(s.drop_first()) == weight_total_s(s.drop_first().drop_last())
            + s.drop_first().last());
    }
}

/// A wheel draw below the weight total always lands on a slot of
/// positive weight: slots of weight zero have no surface on the wheel.
pub proof fn lemma_wheel_pick_positive(fits: Seq<i64>, x: int)
    requires
        forall|i: int| 0 <= i < fits.len() ==> 0 <= #[trigger] fits[i],
        0 <= x < weight_total_s(fits),
    ensures
        0 <= wheel_pick_s(fits, x) < fits.len(),
        fits[wheel_pick_s(fits, x)] > 0,
    decreases fits.len(),
{
    if fits.len() == 0 {
        assert(weight_total_s(fits) == 0);
    } else if x < fits[0] {
    } else {
        lemma_total_head(fits);
        assert(forall|i: int|
            0 <= i < fits.drop_first().len() ==> 0 <= #[trigger] fits.drop_first()[i]);
        lemma_wheel_pick_positive(fits.drop_first(), x - fits[0]);
    }
}

/// The slot a given wheel draw lands on: the first index whose cumulative
/// weight exceeds the draw. This is the deterministic half of roulette
/// selection, exact for every draw below the weight total.
pub fn pick_by_weight(fits: &Vec<i64>, x: u128) -> (r: usize)
    requires
        forall|i: int| 0 <= i < fits@.len() ==> 0 <= #[trigger] fits@[i],
        (x as int) < weight_total_s(fits@),
    ensures
        r < fits@.len(),
        r == wheel_pick_s(fits@, x as int),
{
    let n = fits.len();
    let mut cur: u128 = x;
    let mut i: usize = 0;
    proof {
        assert(fits@.skip(0) =~= fits@);
    }
    while i < n
        invariant
            i <= n,
            n == fits@.len(),
            forall|k: int| 0 <= k < fits@.len() ==> 0 <= #[trigger] fits@[k],
            (cur as int) < weight_total_s(fits@.skip(i as int)),
            wheel_pick_s(fits@, x as int) == i + wheel_pick_s(fits@.skip(i as int), cur as int),
        decreases n - i,
    {
        let w = fits[i];
        proof {
            lemma_total_head(fits@.skip(i as int));
            assert(fits@.skip(i as int)[0] == fits@[i as int]);
            assert(fits@.skip(i as int).drop_first() =~= fits@.skip(i + 1));
        }
        if cur < w as u128 {
            return i;
        }
        cur = cur - w as u128;
        i = i + 1;
    }
    proof {
        assert(fits@.skip(n as int) =~= Seq::<i64>::empty());
        assert(false);
    }
    0
}

#[derive(Clone, Copy, PartialEq, Eq, Structural, Debug)]
pub struct RouletteWheelSelection;

impl RouletteWheelSelection {
    pub fn new() -> (r: Self)
        ensures
            r == RouletteWheelSelection,
    {
        Self
    }
}

impl Default for RouletteWheelSelection {
    fn default() -> (r: Self)
        ensures
            r == RouletteWheelSelection,
    {
        Self
    }
}

/// The exact weight total, as executable code.
pub fn weight_total(fits: &Vec<i64>) -> (r: u128)
    requires
        forall|i: int| 0 <= i < fits@.len() ==> 0 <= #[trigger] fits@[i],
    ensures
        r == weight_total_s(fits@),
{
    let n = fits.len();
    let mut acc: u128 = 0;
    let mut i: usize = 0;
    while i < n
        invariant
            i <= n,
            n == fits@.len(),
            forall|k: int| 0 <= k < fits@.len() ==> 0 <= #[trigger] fits@[k],
            acc == weight_total_s(fits@.take(i as int)),
            acc <= (i as int) * 0x8000_0000_0000_0000int,
        decreases n - i,
    {
        proof {
            assert(fits@.take(i + 1).drop_last() =~= fits@.take(i as int));
            assert(fits@.take(i + 1).last() == fits@[i as int]);
            assert((i + 1) * 0x8000_0000_0000_0000int == (i as int) * 0x8000_0000_0000_0000int
                + 0x8000_0000_0000_0000int) by (nonlinear_arith);
            assert((i as int) * 0x8000_0000_0000_0000int <= 0xFFFF_FFFF_FFFF_FFFFint
                * 0x8000_0000_0000_0000int) by (nonlinear_arith)
                requires
                    0 <= i as int <= 0xFFFF_FFFF_FFFF_FFFFint,
            ;
        }
        acc = acc + fits[i] as u128;
        i = i + 1;
    }
    proof {
        assert(fits@.take(n as int) =~= fits@);
    }
    acc
}

impl SelectionMethod for RouletteWheelSelection {
    /// Roulette-wheel selection: a slot is chosen with probability
    /// proportional to its weight. When every weight is zero the wheel has
    /// no surface, and the choice falls back to a uniformly random slot.
    fn select(&self, rng: &mut rand_chacha::ChaCha8Rng, fitnesses: &Vec<i64>) -> (r: usize) {
        let total = weight_total(fitnesses);
        if total == 0 {
            let n = fitnesses.len();
            let idx = rng_below(rng, n as u64);
            idx as usize
        } else {
            let x = rng_below_wide(rng, total);
            let r = pick_by_weight(fitnesses, x);
            proof {
                lemma_wheel_pick_positive(fitnesses@, x as int);
            }
            r
        }
    }
}

} // verus!
