[package]
name = "calabaza_tales"
version = "0.1.6"
edition = "2021"
publish = false

[dependencies]
pumpkin-plugin-api = "*"
serde = { version = "1", features = ["derive"] }
serde_json = "1"
toml = "*"
tracing = "0.1"
