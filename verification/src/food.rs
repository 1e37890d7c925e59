//! A food pellet: a point in the plane, relocated at random when eaten.

use vstd::prelude::*;

use crate::fx::{iabs, FX_LIM, FX_ONE};
use crate::rng::rng_below;

verus! {

pub struct Food {
    x: i64,
    y: i64,
}

impl View for Food {
    type V = (i64, i64);

    closed spec fn view(&self) -> (i64, i64) {
        (self.x, self.y)
    }
}

/// Food coordinates stay within the scalar range, so distances to them are
/// always defined.
pub open spec fn food_in_range(f: (i64, i64)) -> bool {
    iabs(f.0 as int) <= FX_LIM && iabs(f.1 as int) <= FX_LIM
}

/// The point lies in the unit square `[0, 1) x [0, 1)`.
pub open spec fn food_in_unit(f: (i64, i64)) -> bool {
    0 <= f.0 < FX_ONE && 0 <= f.1 < FX_ONE
}

impl Food {
    #[verifier::type_invariant]
    pub(crate) open spec fn coords_valid(self) -> bool {
        food_in_range(self@)
    }

    /// A food pellet at the given point.
    pub fn new(x: i64, y: i64) -> (r: Self)
        requires
            iabs(x as int) <= FX_LIM,
            iabs(y as int) <= FX_LIM,
        ensures
            r@ == (x, y),
    {
        Self { x, y }
    }

    /// A food pellet at a uniformly random point of the unit square.
    pub fn random(rng: &mut rand_chacha::ChaCha8Rng) -> (r: Self)
        ensures
            food_in_unit(r@),
    {
        let x = rng_below(rng, FX_ONE as u64) as i64;
        let y = rng_below(rng, FX_ONE as u64) as i64;
        Self { x, y }
    }

    pub fn position(&self) -> (r: (i64, i64))
        ensures
            r == self@,
            food_in_range(r),
    {
        proof {
            use_type_invariant(&*self);
        }
        (self.x, self.y)
    }

    /// Move the pellet to a fresh uniformly random point of the unit
    /// square.
    pub fn relocate(&mut self, rng: &mut rand_chacha::ChaCha8Rng)
        ensures
            food_in_unit(final(self)@),
    {
        proof {
            use_type_invariant(&*self);
        }
        let x = rng_below(rng, FX_ONE as u64) as i64;
        let y = rng_below(rng, FX_ONE as u64) as i64;
        self.x = x;
        self.y = y;
    }
}

} // verus!
