[package]
name = "cdn_optimizer"
version = "0.1.0"
edition = "2021"
publish = false

[dependencies]
anyhow = "1"
encoding_rs = "0.8"
futures = "0.3"
ipnetwork = { version = "0.20", default-features = false }
libc = "0.2"
log = "0.4"
reqwest = { version = "0.12", features = ["json"] }
serde = { version = "1", features = ["derive"] }
serde_json = "1"
serde_yaml = "0.9"
tokio = { version = "1", features = ["process", "time", "rt-multi-thread"] }
windows-service = "*"
