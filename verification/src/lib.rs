//! Brute-force search for Ed25519-style vanity key pairs.
//!
//! A worker repeatedly derives a key pair from fresh randomness,
//! base58-encodes the public key and tests the encoding against a set of
//! pattern variants, either as a prefix or as a substring.

pub mod base58;
pub mod keys;
pub mod matcher;
pub mod pattern;
pub mod rng;
pub mod worker;
