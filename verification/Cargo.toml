[package]
name = "asset_extractor"
version = "0.1.0"
edition = "2021"
publish = false

[dependencies]
console = { version = "=0.16.6", features = ["std"] }
indicatif = "=0.16.2"
serde = { version = "=1.0.229", features = ["derive"] }
serde_json = "=1.0.154"
