[package]
name = "tts_gateway"
version = "0.1.0"
edition = "2021"
publish = false

[dependencies]
base64 = "0.22"
ipgen = "1"
jsonwebtoken = "9"
memchr = "2"
mp3-duration = "0.1"
rand = "0.8"
sha2 = "0.10"
serde = { version = "1", features = ["derive"] }
serde_json = "1"
tokio = { version = "1", features = ["full"] }
reqwest = { version = "0.12", default-features = false, features = ["rustls-tls", "json"] }
axum = "0.8"
aws-config = "1"
aws-sdk-polly = "1"
