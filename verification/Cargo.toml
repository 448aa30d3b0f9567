[package]
name = "zappi_exporter"
version = "0.1.0"
edition = "2021"
publish = false

[dependencies]
anyhow = "1"
config = "0.13"
diqwest = "1"
env_logger = "0.10"
hyper = { version = "0.14", features = ["full"] }
log = "0.4"
reqwest = { version = "0.11", default-features = false }
tokio = { version = "1", features = ["full"] }
