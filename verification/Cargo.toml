[package]
name = "slider_io"
version = "0.1.0"
edition = "2021"
publish = false

[dependencies]
async-trait = "0.1"
futures = "0.3"
hyper = { version = "0.14", features = ["server", "http1", "tcp"] }
log = "0.4"
serde_json = "1"
tokio = { version = "1", features = ["rt", "sync", "time", "macros"] }
tokio-tungstenite = "0.20"
tungstenite = "0.20"
