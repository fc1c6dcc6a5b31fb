[package]
name = "htmxology"
version = "0.1.0"
edition = "2021"
publish = false

[dependencies]
axum = "=0.8.9"
http = "=1.5.0"
serde = { version = "=1.0.229", features = ["derive"] }
serde_json = "=1.0.154"
tokio = { version = "=1.54.1", features = ["full"] }
tracing = "=0.1.44"
thiserror = "=2.0.21"
scraper = "=0.29.0"
blake3 = { version = "=1.8.7", features = ["pure"] }
percent-encoding = "=2.3.2"
convert_case = "=0.12.0"
listenfd = "=1.0.2"
netdev = "=0.47.0"
askama = "*"

[dev-dependencies]
regex = "=1.13.1"
serde_html_form = "=0.4.1"
