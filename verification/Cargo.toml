[package]
name = "gstvosk"
version = "0.1.0"
edition = "2021"
publish = false

[dependencies]
async-tungstenite = { version = "0.17", features = ["tokio-runtime"] }
atomic_refcell = "0.1"
futures = "0.3"
gstreamer = "0.18"
once_cell = "1"
serde = "1"
serde_derive = "1"
serde_json = "1"
tokio = { version = "1", features = ["rt-multi-thread", "time", "net"] }
