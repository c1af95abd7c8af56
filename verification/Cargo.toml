[package]
name = "thin-jsonrpc-client"
version = "0.1.0"
edition = "2021"
publish = false

[dependencies]
derive_more = "0.99"
futures-core = "0.3"
futures-util = "0.3"
serde = { version = "1", features = ["derive"] }
serde_json = { version = "1", features = ["raw_value"] }
