[package]
name = "mutiny_core"
version = "0.1.0"
edition = "2021"
publish = false

[dependencies]
bitcoin = "0.29"
lightning = "=0.0.116"
bip39 = "2"
