[package]
name = "rsl_crypto"
version = "0.1.0"
edition = "2021"
publish = false

[dependencies]
zeroize = "1"

[dev-dependencies]
ghash = "*"
