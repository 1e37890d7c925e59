//! An agent: a position and heading on the torus, a bounded speed, a
//! satiation counter, an eye and a brain.

use vstd::prelude::*;

use crate::brain::{brain_sizes, Brain};
use crate::chromosome::Chromosome;
use crate::eye::{eye_wf, foods_view, vision_s, Eye, EyeView, EYE_CELLS};
use crate::food::Food;
use crate::fx::{clamp_s, emod, fx_add, fx_add_s, fx_clamp, fx_mul, fx_mul_s, iabs, FX_LIM, FX_ONE};
use crate::network::{net_flat, net_in_range, net_matches, net_out_s};
use crate::neuron::NeuronView;
use crate::rng::rng_below;
use crate::trig::{cos, cos_s, sin, sin_s, FX_TWO_PI};

verus! {

/// The speed every fresh agent starts with.
pub const SPEED_INITIAL: i64 = 2_000;

/// The mathematical content of an agent's state.
pub struct AnimalView {
    pub x: i64,
    pub y: i64,
    pub rotation: i64,
    pub speed: i64,
    pub satiation: u64,
    pub eye: EyeView,
    pub brain: Seq<Seq<NeuronView>>,
}

pub struct Animal {
    x: i64,
    y: i64,
    rotation: i64,
    speed: i64,
    satiation: u64,
    eye: Eye,
    brain: Brain,
}

impl View for Animal {
    type V = AnimalView;

    closed spec fn view(&self) -> AnimalView {
        AnimalView {
            x: self.x,
            y: self.y,
            rotation: self.rotation,
            speed: self.speed,
            satiation: self.satiation,
            eye: self.eye@,
            brain: self.brain@,
        }
    }
}

/// The agent's state stays sound: position in the unit square, heading
/// canonical, speed a scalar, eye well formed, brain of the eye's shape.
pub open spec fn animal_wf(a: AnimalView) -> bool {
    &&& 0 <= a.x < FX_ONE
    &&& 0 <= a.y < FX_ONE
    &&& 0 <= a.rotation < FX_TWO_PI
    &&& iabs(a.speed as int) <= FX_LIM
    &&& eye_wf(a.eye)
    &&& net_matches(a.brain, brain_sizes(a.eye.cells))
}

/// Two agent states that agree on everything but the satiation counter.
pub open spec fn same_but_satiation(a: AnimalView, b: AnimalView) -> bool {
    &&& a.x == b.x
    &&& a.y == b.y
    &&& a.rotation == b.rotation
    &&& a.speed == b.speed
    &&& a.eye == b.eye
    &&& a.brain == b.brain
}

/// One act of sensing and thinking: the eye's intensity vector runs
/// through the brain; the first response steers the speed within its
/// bounds, the second turns the heading, which wraps around the full turn.
pub open spec fn think_s(
    a: AnimalView,
    foods: Seq<(i64, i64)>,
    speed_min: int,
    speed_max: int,
    speed_accel: int,
    rotation_accel: int,
) -> AnimalView {
    let vision = vision_s(a.eye, a.x as int, a.y as int, a.rotation as int, foods);
    let response = net_out_s(a.brain, vision);
    let dspeed = clamp_s(response[0] as int, -speed_accel, speed_accel);
    let drot = clamp_s(response[1] as int, -rotation_accel, rotation_accel);
    AnimalView {
        speed: clamp_s(fx_add_s(a.speed as int, dspeed), speed_min, speed_max) as i64,
        rotation: ((a.rotation + drot) % (FX_TWO_PI as int)) as i64,
        ..a
    }
}

/// One movement step: advance by the speed along the heading, wrapping
/// both coordinates around the unit torus.
pub open spec fn move_s(a: AnimalView) -> AnimalView {
    let dx = fx_mul_s(a.speed as int, cos_s(a.rotation as int));
    let dy = fx_mul_s(a.speed as int, sin_s(a.rotation as int));
    AnimalView {
        x: ((a.x + dx) % (FX_ONE as int)) as i64,
        y: ((a.y + dy) % (FX_ONE as int)) as i64,
        ..a
    }
}

/// The world wraps: a coordinate that crosses the far edge reappears at
/// the corresponding offset past the near edge.
pub proof fn lemma_unit_wrap_high(v: int)
    requires
        FX_ONE <= v < 2 * FX_ONE,
    ensures
        v % (FX_ONE as int) == v - FX_ONE,
{
    vstd::arithmetic::div_mod::lemma_fundamental_div_mod_converse_mod(
        v,
        FX_ONE as int,
        1,
        v - FX_ONE,
    );
}

/// The world wraps the other way: a coordinate that crosses below zero
/// reappears at the corresponding offset below the far edge.
pub proof fn lemma_unit_wrap_low(v: int)
    requires
        -(FX_ONE as int) <= v < 0,
    ensures
        v % (FX_ONE as int) == v + FX_ONE,
{
    vstd::arithmetic::div_mod::lemma_fundamental_div_mod_converse_mod(
        v,
        FX_ONE as int,
        -1,
        v + FX_ONE,
    );
}

impl Animal {
    #[verifier::type_invariant]
    pub(crate) open spec fn state_valid(self) -> bool {
        animal_wf(self@)
    }

    /// A fresh agent: random position and heading, initial speed, empty
    /// satiation, the standard eye and a random brain of its shape.
    pub fn random(rng: &mut rand_chacha::ChaCha8Rng) -> (r: Self)
        ensures
            r@.satiation == 0,
            r@.speed == SPEED_INITIAL,
            r@.eye == Eye::default_view(),
            net_matches(r@.brain, brain_sizes(EYE_CELLS)),
            net_in_range(r@.brain),
    {
        let eye = Eye::default();
        let brain = Brain::random(rng, &eye);
        Self::with_brain(rng, eye, brain)
    }

    /// A fresh agent around a given eye and brain: random position and
    /// heading, initial speed, empty satiation.
    pub fn with_brain(rng: &mut rand_chacha::ChaCha8Rng, eye: Eye, brain: Brain) -> (r: Self)
        requires
            net_matches(brain@, brain_sizes(eye@.cells)),
        ensures
            r@.satiation == 0,
            r@.speed == SPEED_INITIAL,
            r@.eye == eye@,
            r@.brain == brain@,
    {
        proof {
            use_type_invariant(&eye);
        }
        let x = rng_below(rng, FX_ONE as u64) as i64;
        let y = rng_below(rng, FX_ONE as u64) as i64;
        let rotation = rng_below(rng, FX_TWO_PI as u64) as i64;
        Self { x, y, rotation, speed: SPEED_INITIAL, satiation: 0, eye, brain }
    }

    /// The agent's position in the unit square.
    pub fn position(&self) -> (r: (i64, i64))
        ensures
            r == (self@.x, self@.y),
            0 <= r.0 < FX_ONE,
            0 <= r.1 < FX_ONE,
    {
        proof {
            use_type_invariant(&*self);
        }
        (self.x, self.y)
    }

    /// The agent's heading, a canonical angle in `[0, 2 pi)`.
    pub fn rotation(&self) -> (r: i64)
        ensures
            r == self@.rotation,
            0 <= r < FX_TWO_PI,
    {
        proof {
            use_type_invariant(&*self);
        }
        self.rotation
    }

    pub fn speed(&self) -> (r: i64)
        ensures
            r == self@.speed,
    {
        self.speed
    }

    /// How many foods the agent has eaten since the last evolution.
    pub fn satiation(&self) -> (r: u64)
        ensures
            r == self@.satiation,
    {
        self.satiation
    }

    /// The agent's genome: its brain's flattened weights.
    pub fn as_chromosome(&self) -> (r: Chromosome)
        ensures
            r@ == net_flat(self@.brain),
    {
        self.brain.as_chromosome()
    }

    /// One food eaten: the satiation counter steps up.
    pub(crate) fn feed(&mut self)
        requires
            old(self)@.satiation < u64::MAX,
        ensures
            final(self)@ == (AnimalView { satiation: (old(self)@.satiation + 1) as u64, ..old(
                self,
            )@ }),
    {
        proof {
            use_type_invariant(&*self);
        }
        self.satiation = self.satiation + 1;
    }

    /// Sense the foods and steer: exactly the `think_s` transition.
    pub(crate) fn think(
        &mut self,
        foods: &Vec<Food>,
        speed_min: i64,
        speed_max: i64,
        speed_accel: i64,
        rotation_accel: i64,
    )
        requires
            iabs(speed_min as int) <= FX_LIM,
            iabs(speed_max as int) <= FX_LIM,
            iabs(speed_accel as int) <= FX_LIM,
            iabs(rotation_accel as int) <= FX_LIM,
        ensures
            final(self)@ == think_s(
                old(self)@,
                foods_view(foods@),
                speed_min as int,
                speed_max as int,
                speed_accel as int,
                rotation_accel as int,
            ),
    {
        proof {
            use_type_invariant(&*self);
        }
        let vision = self.eye.process_vision(self.x, self.y, self.rotation, foods);
        proof {
            assert(brain_sizes(self.eye@.cells)[0] == self.eye@.cells);
        }
        let response = self.brain.propagate(vision);
        proof {
            assert(self.brain@.len() == 2);
            assert(self.brain@[1].len() == brain_sizes(self.eye@.cells)[2]);
            assert(response@.len() == 2);
        }
        let dspeed = fx_clamp(response[0], -speed_accel, speed_accel);
        let drot = fx_clamp(response[1], -rotation_accel, rotation_accel);
        let new_speed = fx_clamp(fx_add(self.speed, dspeed), speed_min, speed_max);
        let new_rotation = emod(self.rotation + drot, FX_TWO_PI);
        self.speed = new_speed;
        self.rotation = new_rotation;
    }

    /// Advance along the heading and wrap around the torus: exactly the
    /// `move_s` transition.
    pub(crate) fn move_forward(&mut self)
        ensures
            final(self)@ == move_s(old(self)@),
    {
        proof {
            use_type_invariant(&*self);
        }
        let dx = fx_mul(self.speed, cos(self.rotation));
        let dy = fx_mul(self.speed, sin(self.rotation));
        let nx = emod(self.x + dx, FX_ONE);
        let ny = emod(self.y + dy, FX_ONE);
        self.x = nx;
        self.y = ny;
    }
}

} // verus!
