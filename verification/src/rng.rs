//! The random source of the engine: `rand`'s standard generator, and the
//! one draw the engine makes from it.

use vstd::prelude::*;
use rand::rngs::StdRng;
use rand::Rng;

verus! {

/// `rand::rngs::StdRng`, carried through the engine as an opaque value.
#[verifier::external_type_specification]
#[verifier::external_body]
pub struct ExStdRng(StdRng);

/// Draws an index below `n` with `rand::Rng::gen_range(0..n)`.
///
/// Trusted: the draw lies in `0..n`. `gen_range` panics on an empty range,
/// so `n` must not be 0. Nothing else is claimed of the value drawn, nor of
/// the state the generator is left in.
#[verifier::external_body]
pub(crate) fn random_index(rng: &mut StdRng, n: usize) -> (r: usize)
    requires
        n > 0,
    ensures
        r < n,
{
    rng.gen_range(0..n)
}

} // verus!
