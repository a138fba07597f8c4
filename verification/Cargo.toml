[package]
name = "llms_client"
version = "0.1.0"
edition = "2021"
publish = false

[dependencies]
serde = { version = "=1.0.229", features = ["derive"] }
serde_json = "=1.0.154"
reqwest = { version = "=0.12.28", default-features = false, features = ["json", "stream", "rustls-tls"] }
base64 = "=0.22.1"
regex = "=1.13.1"
mime = "=0.3.17"
tokio = { version = "=1.54.1", features = ["fs"] }
futures = "=0.3.34"
bytes = "=1.12.1"
thiserror = "=2.0.21"
