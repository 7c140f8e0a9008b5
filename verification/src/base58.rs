//! The base58 codec that turns a public key into the candidate text the
//! matcher tests.

use vstd::prelude::*;

verus! {

/// The base58 encoding (Bitcoin alphabet) of a byte string, as the bs58
/// crate computes it.
pub uninterp spec fn base58_of(bytes: Seq<u8>) -> Seq<u8>;

/// Relies on bs58::encode(..).into_vec(): the base58 encoding with the
/// default Bitcoin alphabet, a function of the input bytes alone.
#[verifier::external_body]
pub(crate) fn base58_encode(bytes: &Vec<u8>) -> (r: Vec<u8>)
    ensures
        r@ == base58_of(bytes@),
{
    bs58::encode(bytes.as_slice()).into_vec()
}

} // verus!
