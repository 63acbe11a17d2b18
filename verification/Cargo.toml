[package]
name = "circom_qap"
version = "0.1.0"
edition = "2021"
publish = false

[dependencies]
ark-bn254 = "*"
ark-ff = "*"
ark-poly = "*"
ark-groth16 = "*"
ark-relations = "*"
ark-std = "*"

[dev-dependencies]
ark-ec = "*"
ark-snark = "*"
