[package]
name = "tokensign"
version = "0.1.0"
edition = "2021"
publish = false

[dependencies]
base64 = "0.22"
chrono = "0.4"
hmac = "0.12"
rmp-serde = "1"
serde = { version = "1", features = ["derive"] }
sha2 = "0.10"
