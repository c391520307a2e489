[package]
name = "order_dashboard"
version = "0.1.0"
edition = "2021"
publish = false

[dependencies]
sha2 = "0.10"
hmac = "0.12"
hex = "0.4"
sha3 = "0.10"
base64 = "0.22"
hostname = "0.4"
k256 = { version = "0.13", features = ["ecdsa"] }
chrono = "0.4"
serde = { version = "1", features = ["derive"] }
serde_json = "1"
