[package]
name = "oss_client"
version = "0.1.0"
edition = "2021"
publish = false

[dependencies]
base64 = "0.13"
rust-crypto = "0.2"
md5 = "0.7"
serde_urlencoded = "0.7"
url = "2"
hmac = "0.12"
sha1 = "0.10"
sha2 = "0.10"
reqwest = { version = "0.11", default-features = false }
tokio = { version = "1", features = ["rt"] }
