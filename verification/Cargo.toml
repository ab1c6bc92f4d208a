[package]
name = "vinput_ws_asr"
version = "0.1.0"
edition = "2021"
publish = false

[dependencies]
base64 = "0.22"
futures-util = "0.3"
serde = { version = "1", features = ["derive"] }
serde_json = "1"
tokio = { version = "1", features = ["rt-multi-thread", "macros", "sync", "time", "net"] }
tokio-tungstenite = "0.26"
