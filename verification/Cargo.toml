[package]
name = "jsonrpc_http_client"
version = "0.1.0"
edition = "2021"
publish = false

[dependencies]
serde_json = "1"
jsonrpc-core = "18"
hyper = { version = "0.14", features = ["client", "http1", "tcp"] }
tokio = { version = "1", features = ["rt", "sync", "macros"] }
futures = "0.3"
