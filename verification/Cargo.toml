[package]
name = "maat_sdk"
version = "0.1.0"
edition = "2021"
publish = false

[dependencies]
base64 = "=0.22.1"
serde = { version = "=1.0.229", features = ["derive"] }
serde_json = "=1.0.154"
uuid = { version = "=1.29.0", features = ["serde"] }
reqwest = { version = "=0.12.28", default-features = false, features = ["json"] }
thiserror = "=1.0.69"
