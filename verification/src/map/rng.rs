//! The crate's only window onto the random number generator: the generator
//! draws candidate indices through it, and is verified for every outcome.

use vstd::prelude::*;

verus! {

/// The seedable generator that callers hand to the map generator.
#[verifier::external_type_specification]
#[verifier::external_body]
pub struct ExStdRng(rand::rngs::StdRng);

/// Relies on rand's `Rng::gen_range` over `0..n`: it returns a value of the
/// range and panics only when the range is empty. Nothing more is assumed:
/// the drawn index may be any value below `n`.
#[verifier::external_body]
pub(crate) fn pick_index(rng: &mut rand::rngs::StdRng, n: usize) -> (r: usize)
    requires
        n > 0,
    ensures
        r < n,
{
    rand::Rng::gen_range(rng, 0..n)
}

} // verus!
