[package]
name = "secp256k1"
version = "0.1.0"
edition = "2021"
publish = false

[dependencies]
k256 = { version = "0.13", features = ["ecdsa", "sha256"] }
ecdsa = { version = "0.16", features = ["signing", "verifying"] }
sha2 = "0.10"

[dev-dependencies]
rand = "0.8"
