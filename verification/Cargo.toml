[package]
name = "staking_core"
version = "0.1.0"
edition = "2021"
publish = false

[dependencies]
blake2 = "=0.10.6"
tiny-bip39 = "=1.0.0"
substrate-bip39 = "=0.4.6"
