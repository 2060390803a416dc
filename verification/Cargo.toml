[package]
name = "votor"
version = "0.1.0"
edition = "2021"
publish = false

[dependencies]
crossbeam-channel = "0.5"
log = "0.4"
solana-clock = "3.0"
solana-pubkey = "3"
thiserror = "2"
