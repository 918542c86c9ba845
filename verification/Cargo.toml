[package]
name = "realtime_stt"
version = "0.1.0"
edition = "2021"
publish = false

[dependencies]
anyhow = "1"
bytemuck = "1"
futures-util = "0.3"
hound = "3.5"
reqwest = { version = "0.12", default-features = false, features = ["multipart"] }
serde = { version = "1", features = ["derive"] }
serde_json = "1"
tokio = { version = "1", features = ["net"] }
tokio-tungstenite = "0.24"
