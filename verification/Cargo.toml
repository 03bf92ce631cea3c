[package]
name = "cargo_set"
version = "0.1.0"
edition = "2021"
publish = false

[dependencies]
cargo_toml = "=0.22.3"
toml = "=0.9.12"
anyhow = "*"
clap = { version = "*", features = ["derive"] }
tracing = "*"
tracing-subscriber = "*"
