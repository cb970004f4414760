[package]
name = "antman"
version = "0.1.0"
edition = "2021"
publish = false

[dependencies]
anyhow = "=1.0.104"
clap = { version = "=4.6.7", features = ["derive"] }
futures = "=0.3.34"
once_cell = "=1.21.4"
reqwest = { version = "=0.12.28", default-features = false, features = ["rustls-tls", "stream"] }
serde = { version = "=1.0.229", features = ["derive"] }
serde_json = "=1.0.154"
tokio = { version = "=1.54.1", features = ["macros", "rt-multi-thread", "fs", "io-util", "sync", "time"] }
toml = "=0.8.23"
toml_edit = "=0.22.27"
zip = "=2.6.1"
