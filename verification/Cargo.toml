[package]
name = "searchxyz"
version = "0.1.0"
edition = "2021"
publish = false

[dependencies]
url = "=2.5.8"
rand = "=0.9.5"
lru = "=0.19.0"
dirs = "=7.0.0"
pdf-extract = "=0.12.1"
scraper = "=0.29.0"
chrono = "=0.4.45"
serde = { version = "=1.0.229", features = ["derive"] }
serde_json = "=1.0.154"
toml = "=1.1.8"
tokio = { version = "=1.54.1", features = ["full"] }
reqwest = { version = "=0.12.28", default-features = false, features = ["json", "gzip", "brotli", "socks", "rustls-tls"] }
axum = "=0.8.9"
rmcp = { version = "=3.8.0", features = ["server", "macros", "transport-io", "transport-streamable-http-server"] }
schemars = "=1.2.3"
clap = { version = "=4.6.7", features = ["derive"] }
tracing = "=0.1.44"
tracing-subscriber = { version = "=0.3.23", features = ["env-filter"] }
anyhow = "=1.0.104"
thiserror = "=2.0.21"
futures = "=0.3.34"
governor = "=0.10.4"
tantivy = { version = "=0.27.0", default-features = false, features = ["mmap"] }

[dev-dependencies]
lopdf = { version = "=0.42.0", default-features = false }
