//! The world: a fixed-size population of agents and a fixed-size set of
//! food pellets.

use vstd::prelude::*;

use crate::animal::Animal;
use crate::brain::brain_sizes;
use crate::eye::{Eye, EYE_CELLS};
use crate::food::{food_in_unit, Food};
use crate::network::net_matches;

verus! {

/// How many agents a fresh world holds.
pub const WORLD_ANIMALS: usize = 40;

/// How many food pellets a fresh world holds.
pub const WORLD_FOODS: usize = 60;

pub struct World {
    pub(crate) animals: Vec<Animal>,
    pub(crate) foods: Vec<Food>,
}

impl World {
    pub open(crate) spec fn animals_spec(&self) -> Seq<Animal> {
        self.animals@
    }

    pub open(crate) spec fn foods_spec(&self) -> Seq<Food> {
        self.foods@
    }

    /// A fresh world: the standard number of random agents and random
    /// foods.
    pub fn random(rng: &mut rand_chacha::ChaCha8Rng) -> (r: Self)
        ensures
            r.animals_spec().len() == WORLD_ANIMALS,
            r.foods_spec().len() == WORLD_FOODS,
            forall|i: int|
                0 <= i < WORLD_ANIMALS ==> (#[trigger] r.animals_spec()[i])@.satiation == 0,
            forall|i: int|
                0 <= i < WORLD_ANIMALS ==> (#[trigger] r.animals_spec()[i])@.eye
                    == Eye::default_view(),
            forall|i: int|
                0 <= i < WORLD_ANIMALS ==> net_matches(
                    (#[trigger] r.animals_spec()[i])@.brain,
                    brain_sizes(EYE_CELLS),
                ),
            forall|l: int| 0 <= l < WORLD_FOODS ==> food_in_unit((#[trigger] r.foods_spec()[l])@),
    {
        let mut animals: Vec<Animal> = Vec::new();
        let mut i: usize = 0;
        while i < WORLD_ANIMALS
            invariant
                i <= WORLD_ANIMALS,
                animals@.len() == i,
                forall|k: int| 0 <= k < i ==> (#[trigger] animals@[k])@.satiation == 0,
                forall|k: int| 0 <= k < i ==> (#[trigger] animals@[k])@.eye == Eye::default_view(),
                forall|k: int|
                    0 <= k < i ==> net_matches(
                        (#[trigger] animals@[k])@.brain,
                        brain_sizes(EYE_CELLS),
                    ),
            decreases WORLD_ANIMALS - i,
        {
            let a = Animal::random(rng);
            animals.push(a);
            i = i + 1;
        }
        let mut foods: Vec<Food> = Vec::new();
        let mut j: usize = 0;
        while j < WORLD_FOODS
            invariant
                j <= WORLD_FOODS,
                foods@.len() == j,
                forall|l: int| 0 <= l < j ==> food_in_unit((#[trigger] foods@[l])@),
            decreases WORLD_FOODS - j,
        {
            let f = Food::random(rng);
            foods.push(f);
            j = j + 1;
        }
        Self { animals, foods }
    }

    pub fn animals(&self) -> (r: &Vec<Animal>)
        ensures
            r@ == self.animals_spec(),
    {
        &self.animals
    }

    pub fn foods(&self) -> (r: &Vec<Food>)
        ensures
            r@ == self.foods_spec(),
    {
        &self.foods
    }
}

} // verus!
