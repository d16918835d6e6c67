[package]
name = "openshell_relay"
version = "0.1.0"
edition = "2021"
publish = false

[dependencies]
anyhow = "1"
async-trait = "0.1"
base64 = "0.22"
futures = "0.3"
rand = "0.9"
serde_json = "1"
tokio = { version = "1", features = ["rt-multi-thread", "macros", "net", "io-util", "time", "sync", "process"] }
tokio-tungstenite = "0.26"
tracing = "0.1"
