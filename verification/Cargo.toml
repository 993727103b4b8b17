[package]
name = "scan_pipeline"
version = "0.1.0"
edition = "2021"
publish = false

[dependencies]
serde = { version = "1", features = ["derive"] }
serde_json = "1"
toml = "*"
parking_lot = "0.12"
tokio = { version = "1", features = ["time"] }
async-trait = "0.1"
bson = "*"
