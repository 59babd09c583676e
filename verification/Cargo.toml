[package]
name = "sensorium"
version = "0.1.0"
edition = "2021"
publish = false

[dependencies]
anyhow = "*"
redis = "*"
serde = { version = "*", features = ["derive"] }
serde_json = "*"
