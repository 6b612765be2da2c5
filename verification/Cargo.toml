[package]
name = "streamlet"
version = "0.1.0"
edition = "2021"
publish = false

[dependencies]
uuid = { version = "=1.29.0", features = ["v7"] }
serde = { version = "=1.0.229", features = ["derive"] }
serde_json = "=1.0.154"
async-trait = "=0.1.92"
thiserror = "=1.0.69"
restate-sdk = { version = "=0.13.0", default-features = false }
libsql = { version = "*", default-features = false, features = ["core"] }
tokio = { version = "1", features = ["sync"] }
