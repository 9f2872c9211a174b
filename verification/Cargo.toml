[package]
name = "milestone_escrow"
version = "0.1.0"
edition = "2021"
publish = false

[dependencies]
near-sdk = { version = "=5.29.1", features = ["non-contract-usage"] }

[dev-dependencies]
ed25519-dalek = "=2.2.0"
