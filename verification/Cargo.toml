[package]
name = "feverbft"
version = "0.1.0"
edition = "2021"
publish = false

[dependencies]
chrono = "0.4"
tokio = { version = "1", features = ["full"] }
sntpc = "*"
serde = { version = "1", features = ["derive"] }
serde_json = "1"
axum = "0.6"
