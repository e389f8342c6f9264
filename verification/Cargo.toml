[package]
name = "multisig_plain"
version = "0.1.0"
edition = "2021"
publish = false

[dependencies]
ink_prelude = "3.4.0"
parity-scale-codec = { version = "1.3.7", features = ["derive"] }
