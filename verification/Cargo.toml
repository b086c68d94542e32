[package]
name = "voyager_message"
version = "0.1.0"
edition = "2021"
publish = false

[dependencies]
sha3 = "=0.10.9"
serde = { version = "=1.0.229", features = ["derive"] }
serde_json = "=1.0.154"
tokio = { version = "=1.54.1", features = ["process", "time", "rt-multi-thread", "macros", "sync", "net"] }
tokio-util = "=0.7.20"
futures = "=0.3.34"
tracing = "=0.1.44"
thiserror = "=1.0.69"
jsonrpsee = { version = "=0.24.11", features = ["client-core", "jsonrpsee-types"] }
prost = "=0.13.5"
