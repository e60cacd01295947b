[package]
name = "zk_shielded"
version = "0.1.0"
edition = "2021"
publish = false

[dependencies]
sha3 = "*"
solana-bn254 = "*"
solana-program = "*"
