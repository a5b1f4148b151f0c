[package]
name = "cargo_examples"
version = "0.1.0"
edition = "2021"
publish = false

[dependencies]
anyhow = "1"
cargo_toml = "*"
clap = { version = "4", features = ["derive"] }
tap = "1"
xshell = "0.2"
