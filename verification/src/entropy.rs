//! Random octets, from the `rand` crate: masking keys and handshake nonces.

use vstd::prelude::*;
use rand::rngs::StdRng;

verus! {

/// The random number generator of the `rand` crate.
#[verifier::external_type_specification]
#[verifier::external_body]
pub struct ExStdRng(rand::rngs::StdRng);

/// Calls `<StdRng as SeedableRng>::from_entropy`, which seeds a generator
/// from the operating system.  Nothing is claimed of the generator.
#[verifier::external_body]
pub(crate) fn seeded_rng() -> StdRng {
    <StdRng as rand::SeedableRng>::from_entropy()
}

/// Calls `Rng::fill`, which overwrites `dest` with random octets.  Only its
/// length is claimed to stay the same: any octets may come back.
#[verifier::external_body]
pub(crate) fn fill_random(rng: &mut StdRng, dest: &mut [u8])
    ensures
        final(dest)@.len() == old(dest)@.len(),
{
    rand::Rng::fill(rng, dest)
}

} // verus!
