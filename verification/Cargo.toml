[package]
name = "zkmember"
version = "0.1.0"
edition = "2021"
publish = false

[dependencies]
ark-bls12-381 = "0.3"
ark-crypto-primitives = { version = "0.3", features = ["r1cs"] }
ark-ed-on-bls12-381 = { version = "0.3", features = ["r1cs"] }
ark-ed-on-bw6-761 = { version = "0.3", features = ["r1cs"] }
ark-ff = "0.3"
ark-groth16 = "0.3"
ark-marlin = "0.3"
ark-poly = "0.3"
ark-poly-commit = "0.3"
ark-r1cs-std = "0.3"
ark-relations = "0.3"
ark-serialize = "0.3"
ark-std = "0.3"
blake2 = "0.9"
chrono = "0.4"
serde = { version = "1", features = ["derive"] }
serde_json = "1"
