[package]
name = "poseidon_hashing"
version = "0.1.0"
edition = "2021"
publish = false

[dependencies]
starknet-crypto = "0.6"
serde = { version = "1", features = ["derive"] }
parity-scale-codec = { version = "3", features = ["derive"] }
scale-info = { version = "2", features = ["derive"] }
