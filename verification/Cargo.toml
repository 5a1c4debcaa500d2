[package]
name = "rust_arango_trigger"
version = "0.1.0"
edition = "2021"
publish = false

[dependencies]
base64 = "0.13"
serde = "1"
serde_json = "1"
hyper = { version = "0.14", features = ["client", "http1", "tcp", "stream"] }
futures-util = { version = "0.3", features = ["io"] }
tokio = { version = "1", features = ["time"] }
