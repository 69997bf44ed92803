[package]
name = "metadata_function"
version = "0.1.0"
edition = "2021"
publish = false

[dependencies]
anyhow = "1"
spin-sdk = "5"
