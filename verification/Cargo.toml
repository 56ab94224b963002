[package]
name = "rustine"
version = "0.1.0"
edition = "2021"
publish = false

[dependencies]
anyhow = "1"
base64 = "=0.22.1"
chrono = "0.4"
crossbeam-channel = "0.5"
futures = "0.3"
image = "=0.25.10"
once_cell = "1"
reqwest = { version = "0.12", features = ["blocking"] }
rusqlite = { version = "0.41", features = ["bundled"] }
scraper = "=0.29.0"
serde_json = "=1.0.154"
url = "=2.5.8"
