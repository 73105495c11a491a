[package]
name = "sherlock-rs"
version = "1.0.0"
edition = "2021"
publish = false

[dependencies]
anyhow = "1"
argon2 = "0.5"
axum = "0.7"
base64 = "0.22"
csv = "1"
dirs = "5"
open = "5"
rand = "0.8"
regex = "1"
reqwest = { version = "0.12", default-features = false, features = ["rustls-tls", "socks", "charset", "http2"] }
rusqlite = { version = "0.32", features = ["bundled-sqlcipher-vendored-openssl"] }
scraper = "0.20"
serde = { version = "1", features = ["derive"] }
serde_json = "1"
sha2 = "0.10"
time = "0.3"
tokio = { version = "1", features = ["full"] }
tokio-rusqlite = "0.6"
tokio-stream = "0.1"
tower-http = { version = "0.5", features = ["limit"] }
uuid = { version = "1", features = ["v4"] }
zeroize = "1"
