[package]
name = "bls_elgamal"
version = "0.1.0"
edition = "2021"
publish = false

[dependencies]
ark-bls12-381 = "0.5"
ark-ec = "0.5"
ark-ff = "0.5"
ark-serialize = "0.5"
ark-std = "0.5"
serde = "1"
bincode = "1"

[dev-dependencies]
rand = "0.8"
