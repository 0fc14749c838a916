[package]
name = "beetle_hunt"
version = "0.1.0"
edition = "2021"
publish = false

[dependencies]
anyhow = "=1.0.104"
chrono = "=0.4.45"
futures = "=0.3.34"
rand = "=0.8.8"
reqwest = { version = "=0.12.28", default-features = false, features = ["json", "cookies", "gzip", "brotli", "deflate", "rustls-tls"] }
serde = { version = "=1.0.229", features = ["derive"] }
serde_json = "=1.0.154"
thirtyfour = "*"
tokio = { version = "=1.54.1", features = ["full"] }
