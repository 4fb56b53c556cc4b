[package]
name = "aleo_primitives"
version = "0.1.0"
edition = "2021"
publish = false

[dependencies]
blake2 = "0.9"
digest = "0.9"

[dev-dependencies]
rand = "0.8"
rand_chacha = "0.3"
