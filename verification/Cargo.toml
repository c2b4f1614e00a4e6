[package]
name = "mastiff_backend"
version = "0.1.0"
edition = "2021"
publish = false

[dependencies]
tokio = { version = "=1.53.2", features = ["full"] }
axum = { version = "=0.8.9", features = ["multipart"] }
docker-api = "=0.14.0"
async-compression = { version = "=0.4.50", features = ["tokio", "gzip"] }
tokio-tar = "=0.3.1"
tokio-stream = "=0.1.19"
tokio-util = { version = "=0.7.19", features = ["io"] }
clap = { version = "=4.6.7", features = ["derive"] }
serde = { version = "=1.0.229", features = ["derive"] }
toml = "=1.1.7"
libunftp = "=0.23.1"
unftp-core = "=0.1.0"
unftp-sbe-fs = "=0.4.0"
async-trait = "=0.1.92"
