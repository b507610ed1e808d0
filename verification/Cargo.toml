[package]
name = "calibre-web-automated-downloader"
version = "0.1.0"
edition = "2021"
publish = false

[dependencies]
anyhow = "=1.0.104"
axum = { version = "=0.8.9", default-features = false }
dotenv = "=0.15.0"
reqwest = "=0.12.28"
tokio = { version = "=1.54.1", features = ["rt", "time"] }
url = "=2.5.8"
