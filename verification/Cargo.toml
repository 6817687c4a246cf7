[package]
name = "xdown"
version = "0.1.0"
edition = "2021"
publish = false

[dependencies]
anyhow = "1"
bytes = "1"
clap = { version = "4", features = ["derive"] }
crossfire = "2"
dashmap = { version = "6", features = ["serde"] }
encoding = "0.2"
futures = "0.3"
http = "1"
indicatif = "0.17"
percent-encoding = "2"
regex = "1"
serde = { version = "1", features = ["derive"] }
serde_json = "1"
sha256 = "1"
tokio = { version = "1", features = ["full"] }
