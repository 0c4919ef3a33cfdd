[package]
name = "tantivy_bridge"
version = "0.1.0"
edition = "2021"
publish = false

[dependencies]
tantivy = "=0.24.2"
chrono = "=0.4.45"
serde = { version = "=1.0.229", features = ["derive"] }
serde_json = "=1.0.154"
napi = { version = "=3.15.0", features = ["serde-json", "napi6"] }
napi-derive = "=3.6.13"
