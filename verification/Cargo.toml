[package]
name = "vanity"
version = "0.1.0"
edition = "2021"
publish = false

[dependencies]
clap = { version = "=4.6.7", features = ["derive"] }
rayon = "=1.12.0"
solana-sdk = "=5.0.0"
