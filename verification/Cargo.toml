[package]
name = "vanity_keys"
version = "0.1.0"
edition = "2021"
publish = false

[dependencies]
bs58 = "0.5"
curve25519-dalek = "4"
ed25519-dalek = "2"
rand = "0.8"
rand_xoshiro = "0.6"
sha2 = "0.10"
