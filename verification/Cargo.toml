[package]
name = "vrf_program"
version = "0.1.0"
edition = "2021"
publish = false

[dependencies]
borsh = { version = "1", features = ["derive"] }
clap = "2"
rand = "0.8"
sha2 = "0.10"
sha3 = "0.10"
solana-program = "1.18"
solana-sdk = "1.18"
thiserror = "1"
