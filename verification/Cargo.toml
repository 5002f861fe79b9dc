[package]
name = "merkle_distributor"
version = "0.1.0"
edition = "2021"
publish = false

[dependencies]
solana-program = "*"
rust_decimal = "*"
