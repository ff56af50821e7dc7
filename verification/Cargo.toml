[package]
name = "rustyssh"
version = "0.1.0"
edition = "2021"
publish = false

[dependencies]
sha2 = "0.10"
ed25519-dalek = "2"
p256 = { version = "0.13", features = ["ecdh"] }
rand = "0.8"
