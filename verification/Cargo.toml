[package]
name = "chunky"
version = "0.1.0"
edition = "2021"
publish = false

[dependencies]
url = "2"
tokio = { version = "1", features = ["rt-multi-thread", "macros", "net", "io-util", "sync"] }
hickory-resolver = { version = "0.24", features = ["dns-over-rustls"] }
clap = { version = "4", features = ["derive"] }
env_logger = "0.11"
log = "0.4"
