[package]
name = "game_server"
version = "0.1.0"
edition = "2021"
publish = false

[dependencies]
tungstenite = "0.20"
tokio-tungstenite = "0.20"
tokio = { version = "1", features = ["macros", "rt-multi-thread", "net", "time", "sync"] }
futures = "0.3"
futures-util = "0.3"
log = "0.4"
serde_json = "1"
sha1 = "0.10"
base64 = "0.13"
httparse = "1"
