[package]
name = "cc-downloader"
version = "0.6.0"
edition = "2021"
publish = false

[dependencies]
clap = { version = "4", features = ["derive"] }
flate2 = "1"
indicatif = "0.17"
pyo3 = "*"
ratelimit = "*"
regex = "1"
reqwest = "0.12"
reqwest-middleware = "0.4"
reqwest-retry = "0.7"
tokio = { version = "1", features = ["full"] }
url = "2"

[dev-dependencies]
serde = { version = "1", features = ["derive"] }
