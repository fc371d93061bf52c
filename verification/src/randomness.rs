//! From a revealed proof and the committed seed to the session's randomness.

use sha3::{Digest, Sha3_256};
use vstd::prelude::*;

verus! {

/// The SHA3-256 digest of `data`, as the crate `sha3` computes it.
pub uninterp spec fn spec_sha3_256(data: Seq<u8>) -> [u8; 32];

/// Calls `Sha3_256::digest` of the crate `sha3` on `data`. Trusted: the thirty-two
/// bytes that come back are the digest of `data`, a function of `data` alone, which
/// this library names `spec_sha3_256` and knows nothing more about.
#[verifier::external_body]
fn sha3_256(data: &[u8]) -> (digest: [u8; 32])
    ensures
        digest == spec_sha3_256(data@),
{
    Sha3_256::digest(data).into()
}

/// The randomness of a session: the digest of the proof followed by the seed.
pub open spec fn spec_derive_randomness(proof: Seq<u8>, seed: Seq<u8>) -> Seq<u8> {
    spec_sha3_256(proof + seed)@
}

/// Derives the randomness that `proof` and `seed` stand for. Whoever holds the
/// two gets the same thirty-two bytes.
pub fn derive_randomness(proof: &[u8; 64], seed: &[u8]) -> (randomness: [u8; 32])
    ensures
        randomness@ == spec_derive_randomness(proof@, seed@),
{
    let mut input: Vec<u8> = Vec::new();
    input.extend_from_slice(proof.as_slice());
    input.extend_from_slice(seed);
    assert(input@ =~= proof@ + seed@);
    sha3_256(input.as_slice())
}

/// Equal proofs and seeds derive equal randomness, and randomness is always
/// thirty-two bytes.
pub proof fn lemma_derivation_is_a_function(
    proof1: Seq<u8>,
    seed1: Seq<u8>,
    proof2: Seq<u8>,
    seed2: Seq<u8>,
)
    requires
        proof1 == proof2,
        seed1 == seed2,
    ensures
        spec_derive_randomness(proof1, seed1) == spec_derive_randomness(proof2, seed2),
        spec_derive_randomness(proof1, seed1).len() == 32,
{
}

} // verus!
