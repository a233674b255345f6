[package]
name = "solidsync"
version = "0.1.0"
edition = "2021"
publish = false

[dependencies]
base64 = "0.22"
p256 = { version = "0.13", features = ["ecdsa"] }
percent-encoding = "2"
rand = "0.8"
reqwest = { version = "0.12", default-features = false, features = ["json", "rustls-tls"] }
serde = { version = "1", features = ["derive"] }
serde_json = "1"
sha2 = "0.10"
thiserror = "2"
tokio = { version = "1", features = ["sync"] }
tracing = "0.1"
url = "2"
uuid = { version = "1", features = ["v4"] }
