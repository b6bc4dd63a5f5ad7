[package]
name = "chaintx"
version = "0.1.0"
edition = "2021"
publish = false

[dependencies]
bech32 = "*"
cryptoxide = "*"
rand_os = "*"
