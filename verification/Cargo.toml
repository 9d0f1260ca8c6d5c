[package]
name = "zk_verifier"
version = "0.1.0"
edition = "2021"
publish = false

[dependencies]
ark-bn254 = "0.4"
ark-ec = "0.4"
ark-ff = "0.4"
ark-groth16 = "0.4"
ark-snark = "0.4"
aes-gcm = "0.10"
base64 = "0.22"
sha2 = "0.10"
cosmwasm-std = "1.5"
thiserror = "1"
schemars = "0.8"
serde = "1"

[dev-dependencies]
ark-relations = "0.4"
ark-std = "0.4"
