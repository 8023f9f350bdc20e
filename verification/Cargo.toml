[package]
name = "bybit_client"
version = "0.1.0"
edition = "2021"
publish = false

[dependencies]
anyhow = "*"
bytes = "*"
chrono = "*"
hex = "*"
http = "*"
ring = "*"
serde = { version = "*", features = ["derive"] }
serde_json = "*"
serde_qs = "*"
