[package]
name = "qubit-dependency-policy"
version = "0.1.0"
edition = "2021"
publish = false

[dependencies]
camino = "=1.2.6"
cargo_metadata = "=0.23.1"
clap = { version = "=4.6.7", features = ["derive"] }
semver = "=1.0.28"
serde = { version = "=1.0.229", features = ["derive"] }
serde_json = "=1.0.154"
toml = "=1.2.1"
toml_edit = "=0.25.18"
url = "=2.5.8"
