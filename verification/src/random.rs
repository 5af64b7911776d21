//! The source of random bytes: a generator of the `frand` crate.

use frand::Rand;
use vstd::prelude::*;

verus! {

/// The generator of `frand`, `frand::Rand`, carried through as an opaque
/// value: the library hands it to `random_byte` and reads nothing inside it.
#[verifier::external_type_specification]
#[verifier::external_body]
pub struct ExRand(Rand);

/// Draws the next byte from the generator by `Rand::gen::<u8>` of `frand`.
/// The body is not verified and the contract claims nothing of the byte:
/// what calls this is proved for every byte that may come back.
#[verifier::external_body]
pub(crate) fn random_byte(rng: &mut Rand) -> (byte: u8) {
    rng.gen::<u8>()
}

} // verus!
