[package]
name = "recholera"
version = "0.1.0"
edition = "2021"
publish = false

[dependencies]
regex = "1"
walkdir = "2"
clap = "2"
error-chain = { version = "0.12", default-features = false }

[dev-dependencies]
tempdir = "0.3"
