[package]
name = "zkp_dsa_r1cs"
version = "0.1.0"
edition = "2021"
publish = false

[dependencies]
ark-bls12-381 = { version = "0.3.0", default-features = false, features = ["curve"] }
ark-ff = { version = "0.3.0", default-features = false }
ark-groth16 = { version = "0.3.0", default-features = false }
ark-relations = { version = "0.3.0", default-features = false }
ark-snark = { version = "0.3.0", default-features = false }
ark-std = { version = "0.3.0", default-features = false }
