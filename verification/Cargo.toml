[package]
name = "mnemonic_validator"
version = "0.1.0"
edition = "2021"
publish = false

[dependencies]
bip39 = "*"
clap = { version = "*", features = ["derive"] }
ctrlc = "*"
dirs = "*"
rayon = "*"
