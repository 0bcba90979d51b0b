[package]
name = "tipfinity"
version = "0.1.0"
edition = "2021"
publish = false

[dependencies]
bs58 = "*"
solana-sdk = "*"
