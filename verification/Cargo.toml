[package]
name = "hitair"
version = "0.14.0"
edition = "2021"
publish = false

[dependencies]
strsim = "=0.11.1"
rand = "=0.9.5"
serde = { version = "=1.0.229", features = ["derive"] }
serde_json = "=1.0.154"
toml = "=0.8.23"
dirs = "=6.0.0"
anyhow = "=1.0.104"
reqwest = { version = "=0.12.28", default-features = false, features = ["json", "rustls-tls"] }
tokio = { version = "=1.54.1", features = ["rt-multi-thread", "macros", "sync", "time", "net"] }
flate2 = "=1.1.10"
tar = { version = "=0.4.46", default-features = false }
zip = { version = "=2.6.1", default-features = false, features = ["deflate"] }
self-replace = "=1.5.1"
futures = "0.3"
tokio-tungstenite = { version = "0.26", features = ["rustls-tls-webpki-roots"] }
