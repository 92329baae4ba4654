[package]
name = "curve_utils"
version = "0.1.0"
edition = "2021"
publish = false

[dependencies]
ark-ec = "*"
ark-ff = "*"
ark-secp256k1 = "*"
ark-serialize = "*"
hex = "*"
rust-crypto = "0.2"
