//! The random source.
//!
//! All randomness of the library is drawn from a seedable ChaCha generator,
//! so that whole runs are reproducible from a seed. These are the only
//! trusted items of the crate: each wrapper holds one call into the rand
//! crate, and everything drawn is a plain integer or boolean.

use vstd::prelude::*;

verus! {

/// The deterministic random source of the library: rand_chacha's
/// `ChaCha8Rng`, declared so that values of it can flow through verified
/// code.
#[verifier::external_type_specification]
#[verifier::external_body]
pub struct ExChaCha8Rng(rand_chacha::ChaCha8Rng);

/// Relies on rand's `Rng::gen_range` over `0..n` (rand 0.8): a uniformly
/// distributed value of the half-open range; it panics only on an empty
/// range, which the precondition rules out.
#[verifier::external_body]
pub(crate) fn rng_below(rng: &mut rand_chacha::ChaCha8Rng, n: u64) -> (r: u64)
    requires
        1 <= n,
    ensures
        r < n,
{
    rand::Rng::gen_range(rng, 0..n)
}

/// Relies on rand's `Rng::gen_range` over `0..n` for `u128` weights, as
/// `rng_below` does for `u64`.
#[verifier::external_body]
pub(crate) fn rng_below_wide(rng: &mut rand_chacha::ChaCha8Rng, n: u128) -> (r: u128)
    requires
        1 <= n,
    ensures
        r < n,
{
    rand::Rng::gen_range(rng, 0..n)
}

/// Relies on rand's `Rng::gen_range` over the closed range `lo..=hi`: a
/// uniformly distributed value of that range; it panics only on an empty
/// range, which the precondition rules out.
#[verifier::external_body]
pub(crate) fn rng_range(rng: &mut rand_chacha::ChaCha8Rng, lo: i64, hi: i64) -> (r: i64)
    requires
        lo <= hi,
    ensures
        lo <= r <= hi,
{
    rand::Rng::gen_range(rng, lo..=hi)
}

/// Relies on rand's `Standard` distribution for `bool`: a fair coin flip.
#[verifier::external_body]
pub(crate) fn rng_coin(rng: &mut rand_chacha::ChaCha8Rng) -> (r: bool) {
    rand::Rng::gen(rng)
}

} // verus!
