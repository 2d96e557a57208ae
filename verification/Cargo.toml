[package]
name = "sorocron"
version = "0.2.0"
edition = "2021"
publish = false

[dependencies]
soroban-sdk = { version = "=23.5.3", features = ["hazmat-address"] }

[dev-dependencies]
proptest = "=1.12.0"
