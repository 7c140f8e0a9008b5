//! Key-pair derivation: Ed25519-style clamping of raw scalar bytes and the
//! scalar-to-point derivation of the matching public key.

use vstd::prelude::*;

use crate::rng::random_bytes_32;
use sha2::Digest;
use sha2::Sha512;

verus! {

/// The SHA-512 digest of a byte string, as the sha2 crate computes it.
pub uninterp spec fn sha512_of(input: Seq<u8>) -> Seq<u8>;

/// The 32-byte compressed encoding of s * B, where s is the scalar read
/// from 32 little-endian bytes reduced mod the Ed25519 group order and B
/// is the Ed25519 base point.
pub uninterp spec fn point_of(scalar_bytes: Seq<u8>) -> Seq<u8>;

/// Relies on sha2's Sha512 through the one-shot Digest::digest: the
/// result is the 64-byte SHA-512 digest, a function of the input bytes
/// alone.
#[verifier::external_body]
fn sha512(input: &Vec<u8>) -> (r: Vec<u8>)
    ensures
        r@ == sha512_of(input@),
        r@.len() == 64,
{
    let digest = <Sha512 as Digest>::digest(input.as_slice());
    digest.to_vec()
}

/// Relies on curve25519_dalek: Scalar::from_bytes_mod_order reduces the
/// 32 bytes mod the group order, multiplication by
/// constants::ED25519_BASEPOINT_TABLE yields that multiple of the Ed25519
/// base point, and compress encodes it in 32 bytes; the whole is a
/// function of the input bytes alone.
#[verifier::external_body]
fn scalar_mul_base(bits: &Vec<u8>) -> (r: Vec<u8>)
    requires
        bits@.len() == 32,
    ensures
        r@ == point_of(bits@),
        r@.len() == 32,
{
    let mut arr = [0u8; 32];
    arr.copy_from_slice(bits.as_slice());
    let point = &curve25519_dalek::Scalar::from_bytes_mod_order(arr)
        * curve25519_dalek::constants::ED25519_BASEPOINT_TABLE;
    point.compress().as_bytes().to_vec()
}

/// The clamping of 32 scalar bytes required by the Ed25519 convention:
/// the low 3 bits of byte 0 are cleared, the high bit of byte 31 is
/// cleared and bit 6 of byte 31 is set.
pub open spec fn clamped(s: Seq<u8>) -> Seq<u8> {
    s.update(0, (s[0] & 248) as u8).update(31, ((s[31] & 127) | 64) as u8)
}

/// Holds of byte strings that satisfy the Ed25519 clamping convention.
pub open spec fn is_clamped(s: Seq<u8>) -> bool {
    &&& s.len() == 32
    &&& s[0] & 7 == 0
    &&& s[31] & 128 == 0
    &&& s[31] & 64 == 64
}

/// Clamping any 32 bytes yields bytes that satisfy the clamping convention.
pub proof fn lemma_clamped_is_clamped(s: Seq<u8>)
    requires
        s.len() == 32,
    ensures
        is_clamped(clamped(s)),
{
    let b0 = s[0];
    let b31 = s[31];
    assert((b0 & 248) & 7 == 0) by (bit_vector);
    assert(((b31 & 127) | 64) & 128 == 0) by (bit_vector);
    assert(((b31 & 127) | 64) & 64 == 64) by (bit_vector);
}

/// Clamps `bits` in place.
pub fn clamp(bits: &mut Vec<u8>)
    requires
        old(bits)@.len() == 32,
    ensures
        final(bits)@ == clamped(old(bits)@),
        is_clamped(final(bits)@),
{
    let b0 = bits[0];
    bits[0] = b0 & 248;
    let b31 = bits[31];
    bits[31] = (b31 & 127) | 64;
    proof {
        assert(bits@ =~= clamped(old(bits)@));
        lemma_clamped_is_clamped(old(bits)@);
    }
}

/// The public key that belongs to 32 bytes of private-key material: the
/// low 32 bytes of its SHA-512 digest, clamped and multiplied by the base
/// point.
pub open spec fn public_key_of(private: Seq<u8>) -> Seq<u8> {
    point_of(clamped(sha512_of(private).take(32)))
}

/// Deriving a public key is deterministic: equal private-key bytes give
/// equal public keys.
pub proof fn lemma_derive_public_key_deterministic(k1: Seq<u8>, k2: Seq<u8>)
    requires
        k1 == k2,
    ensures
        public_key_of(k1) == public_key_of(k2),
{
}

/// Draws 32 fresh random bytes from the worker's generator and clamps
/// them into private-key material.
pub fn generate_ed25519_compatible_key(rng: &mut rand_xoshiro::Xoshiro256Plus) -> (r: Vec<u8>)
    ensures
        r@.len() == 32,
        is_clamped(r@),
{
    let mut key = random_bytes_32(rng);
    clamp(&mut key);
    key
}

/// Clamps `bits` in place and returns the compressed point obtained by
/// multiplying the clamped scalar by the base point.
pub fn get_public_key(bits: &mut Vec<u8>) -> (r: Vec<u8>)
    requires
        old(bits)@.len() == 32,
    ensures
        final(bits)@ == clamped(old(bits)@),
        r@ == point_of(clamped(old(bits)@)),
        r@.len() == 32,
{
    clamp(bits);
    scalar_mul_base(bits)
}

/// Derives the public key of 32 bytes of private-key material: SHA-512 of
/// the material, low 32 bytes clamped, times the base point.
pub fn derive_public_key(private_key_bytes: &Vec<u8>) -> (r: Vec<u8>)
    requires
        private_key_bytes@.len() == 32,
    ensures
        r@ == public_key_of(private_key_bytes@),
        r@.len() == 32,
{
    let hash = sha512(private_key_bytes);
    let mut digest: Vec<u8> = Vec::new();
    let mut i: usize = 0;
    while i < 32
        invariant
            i <= 32,
            hash@ == sha512_of(private_key_bytes@),
            hash@.len() == 64,
            digest@ == sha512_of(private_key_bytes@).take(i as int),
        decreases 32 - i,
    {
        digest.push(hash[i]);
        proof {
            assert(digest@ =~= sha512_of(private_key_bytes@).take(i + 1));
        }
        i += 1;
    }
    get_public_key(&mut digest)
}

/// Derives one key pair from fresh randomness: clamped private-key
/// material and the public key that belongs to it.
pub fn get_random_keypair(rng: &mut rand_xoshiro::Xoshiro256Plus) -> (r: (Vec<u8>, Vec<u8>))
    ensures
        r.0@.len() == 32,
        is_clamped(r.0@),
        r.1@ == public_key_of(r.0@),
        r.1@.len() == 32,
{
    let private_key = generate_ed25519_compatible_key(rng);
    let public_key = derive_public_key(&private_key);
    (private_key, public_key)
}

/// Lays a key pair out as 64 bytes: the private-key material followed by
/// the public key.
pub fn make_key_pair(public_key: &Vec<u8>, private_key: &Vec<u8>) -> (r: Vec<u8>)
    requires
        public_key@.len() == 32,
        private_key@.len() == 32,
    ensures
        r@ == private_key@ + public_key@,
        r@.len() == 64,
{
    let mut key_pair: Vec<u8> = Vec::new();
    key_pair.extend_from_slice(private_key.as_slice());
    key_pair.extend_from_slice(public_key.as_slice());
    proof {
        assert(key_pair@ =~= private_key@ + public_key@);
    }
    key_pair
}

} // verus!
