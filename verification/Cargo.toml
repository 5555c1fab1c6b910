[package]
name = "gbaroll"
version = "0.1.0"
edition = "2021"
publish = false

[dependencies]
anyhow = "1"
bincode = "1.3"
chrono = "0.4"
clap = { version = "4", features = ["derive"] }
crc32fast = "1"
env_logger = "*"
futures = "0.3"
log = "0.4"
prost = "0.13"
rand = "0.8"
serde = { version = "1", features = ["derive"] }
serde_json = "1"
thiserror = "*"
tokio = { version = "1", features = ["full"] }
tokio-tungstenite = "*"
zstd = "0.13"
