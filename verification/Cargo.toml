[package]
name = "skland_core"
version = "0.1.0"
edition = "2021"
publish = false

[dependencies]
aes = "0.8"
base64 = "0.22"
block-padding = "0.3"
cbc = "0.1"
chrono = "0.4"
des = "0.8"
flate2 = "1"
hex = "0.4"
hmac = "0.12"
md-5 = "0.10"
rand = "0.8"
reqwest = { version = "0.12", default-features = false, features = ["blocking", "json"] }
rsa = "0.9"
serde = { version = "1", features = ["derive"] }
serde_json = "1"
sha2 = "0.10"
uuid = { version = "1", features = ["v4"] }
