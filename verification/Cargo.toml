[package]
name = "gamecall"
version = "0.1.0"
edition = "2021"
publish = false

[dependencies]
hmac = "*"
sha1 = "*"
base64 = "*"
url = "*"
serde = { version = "*", features = ["derive"] }
serde_json = "*"
chrono = "*"
