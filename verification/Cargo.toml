[package]
name = "memori_storage"
version = "0.1.0"
edition = "2021"
publish = false

[dependencies]
base64 = "=0.22.1"
serde = { version = "=1.0.229", features = ["derive"] }
serde_json = "=1.0.154"
parking_lot = "=0.12.5"
dashmap = "=6.2.1"
tokio = { version = "=1.54.1", features = ["rt", "rt-multi-thread", "sync", "time"] }
napi = { version = "=2.16.17", default-features = false, features = ["napi4"] }
uuid = { version = "=1.29.0", features = ["v4"] }
getrandom = "=0.4.3"
