//! The random source.
//!
//! Randomness reaches the crate through a generator that the caller owns and
//! passes in, so that a caller who seeds the generator gets the same run
//! again.

use vstd::prelude::*;
use rand::Rng;

verus! {

/// The seedable generator `rand::rngs::StdRng`. The crate carries it from
/// the caller to the draws and never looks inside.
#[verifier::external_type_specification]
#[verifier::external_body]
pub struct ExStdRng(rand::rngs::StdRng);

/// Draws a position with `rand::Rng::gen_range` on the half-open range
/// `0..size`.
///
/// That call panics on an empty range, which `size > 0` rules out, and
/// returns a member of the range. Which member depends on the state of the
/// generator, so nothing more is claimed of the result, and nothing at all
/// of the generator afterwards.
#[verifier::external_body]
pub(crate) fn random_index(rng: &mut rand::rngs::StdRng, size: usize) -> (index: usize)
    requires
        size > 0,
    ensures
        index < size,
{
    rng.gen_range(0..size)
}

} // verus!
