use rand::SeedableRng;
use rand_xoshiro::Xoshiro256Plus;

use ed25519_dalek::SigningKey;

use vanity_keys::keys::clamp;
use vanity_keys::keys::derive_public_key;
use vanity_keys::keys::generate_ed25519_compatible_key;
use vanity_keys::keys::get_public_key;
use vanity_keys::keys::get_random_keypair;
use vanity_keys::keys::make_key_pair;

fn assert_clamped(bytes: &[u8]) {
    assert_eq!(bytes.len(), 32);
    assert_eq!(bytes[0] & 7, 0);
    assert_eq!(bytes[31] & 128, 0);
    assert_eq!(bytes[31] & 64, 64);
}

#[test]
fn clamping_invariant_all_ones() {
    let mut key = vec![0xFFu8; 32];
    clamp(&mut key);
    assert_clamped(&key);
    assert_eq!(key[0], 0xF8);
    assert_eq!(key[31], 0x7F);
}

#[test]
fn clamping_invariant_all_zeros() {
    let mut key = vec![0u8; 32];
    clamp(&mut key);
    assert_clamped(&key);
    assert_eq!(key[0], 0);
    assert_eq!(key[31], 64);
}

#[test]
fn clamping_invariant_random_inputs() {
    let mut rng = Xoshiro256Plus::seed_from_u64(11);
    for _ in 0..100 {
        let key = generate_ed25519_compatible_key(&mut rng);
        assert_clamped(&key);
    }
}

#[test]
fn derive_public_key_deterministic() {
    let material: Vec<u8> = (0u8..32u8).collect();
    let first = derive_public_key(&material);
    let second = derive_public_key(&material);
    assert_eq!(first, second);
    assert_eq!(first.len(), 32);
}

#[test]
fn derive_public_key_matches_ed25519() {
    let mut rng = Xoshiro256Plus::seed_from_u64(23);
    for _ in 0..8 {
        let seed = generate_ed25519_compatible_key(&mut rng);
        let ours = derive_public_key(&seed);
        let mut seed_arr = [0u8; 32];
        seed_arr.copy_from_slice(&seed);
        let theirs = SigningKey::from_bytes(&seed_arr).verifying_key().to_bytes();
        assert_eq!(ours.as_slice(), theirs.as_slice());
    }
}

#[test]
fn get_public_key_clamps_in_place() {
    let mut bits: Vec<u8> = vec![0xFFu8; 32];
    let public = get_public_key(&mut bits);
    assert_clamped(&bits);
    assert_eq!(public.len(), 32);
}

#[test]
fn random_keypair_is_consistent() {
    let mut rng = Xoshiro256Plus::seed_from_u64(5);
    let (private_key, public_key) = get_random_keypair(&mut rng);
    assert_clamped(&private_key);
    assert_eq!(public_key, derive_public_key(&private_key));
}

#[test]
fn make_key_pair_layout() {
    let private_key: Vec<u8> = (0u8..32u8).collect();
    let public_key: Vec<u8> = (100u8..132u8).collect();
    let pair = make_key_pair(&public_key, &private_key);
    assert_eq!(pair.len(), 64);
    assert_eq!(&pair[..32], private_key.as_slice());
    assert_eq!(&pair[32..], public_key.as_slice());
}
