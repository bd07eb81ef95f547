[package]
name = "sfu"
version = "0.1.0"
edition = "2021"
publish = false

[dependencies]
bytes = "=1.12.1"
tokio = { version = "=1.53.2", features = ["full"] }
serde_json = "=1.0.151"
webrtc = "=0.11.0"
