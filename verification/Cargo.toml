[package]
name = "mpt_leaf"
version = "0.1.0"
edition = "2021"
publish = false

[dependencies]
eyre = "0.6"
halo2_proofs = "=0.3.5"
hex = "=0.4.3"
rand = "0.8"
rand_chacha = "0.3"
revm-precompile = { version = "=2.0.3", default-features = false }
revm-primitives = { version = "=1.1.2", default-features = false }

[dev-dependencies]
sha3 = "=0.10.9"
