[package]
name = "fconx"
version = "0.1.0"
edition = "2021"
publish = false

[dependencies]
uuid = { version = "=1.29.0", features = ["v5"] }
chrono = "=0.4.45"
rust-crypto = "=0.2.36"
serde = { version = "=1.0.229", features = ["derive"] }
serde_json = "=1.0.154"
tokio = { version = "=1.54.1", features = ["full"] }
reqwest = "=0.13.5"
headless_chrome = "=0.9.0"
scraper = "=0.29.0"
parking_lot = "=0.13.0"
flume = "=0.12.0"
ctrlc = "=3.5.2"
num_cpus = "=1.17.0"
toml = "=1.1.8"
url = "=2.5.8"
bytes = "=1.12.1"
anyhow = "=1.0.104"
