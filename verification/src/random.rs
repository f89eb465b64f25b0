//! The source of the coin flips that break ties.

use rand::rngs::StdRng;
use rand::Rng;
use vstd::prelude::*;

verus! {

/// `rand::rngs::StdRng`, the seedable generator of the `rand` crate. The
/// library hands it on and draws from it; it sees nothing of its state.
#[verifier::external_type_specification]
#[verifier::external_body]
pub struct ExStdRng(rand::rngs::StdRng);

/// `rand::Rng::gen_range` over `0..=1`: the next number of the generator,
/// which is zero or one. Nothing else is known of it.
#[verifier::external_body]
pub(crate) fn draw_bit(rng: &mut StdRng) -> (bit: u8)
    ensures
        bit <= 1,
{
    rng.gen_range(0..=1)
}

} // verus!
