[package]
name = "free_socks"
version = "0.1.0"
edition = "2021"
publish = false

[dependencies]
anyhow = "1"
futures = "0.3"
log = "0.4"
mime = "0.3"
regex = "1"
serde_json = "1"
thiserror = "1"
tokio = { version = "1", features = ["io-util", "macros", "net", "rt", "sync", "time"] }
uuid = { version = "1", features = ["v4"] }
