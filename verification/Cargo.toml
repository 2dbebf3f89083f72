[package]
name = "prosopon"
version = "0.1.0"
edition = "2021"
publish = false

[dependencies]
serde = { version = "=1.0.229", features = ["derive"] }
serde_json = "=1.0.154"
serde_yaml = "=0.9.34"
reqwest = { version = "=0.12.28", default-features = false, features = ["json", "rustls-tls-webpki-roots"] }
tokio = { version = "=1.54.1", features = ["rt-multi-thread", "macros", "time", "process", "fs", "net", "io-util", "sync"] }
axum = "=0.7.9"
rustls = { version = "=0.23.46", default-features = false, features = ["ring", "std"] }
bytes = "=1.12.1"
async-trait = "=0.1.92"
hound = "=3.5.1"
webrtc = "=0.20.5"
tokio-rustls = { version = "=0.26.6", default-features = false, features = ["ring", "tls12", "logging"] }
hyper-util = { version = "=0.1.21", features = ["server-auto", "service", "tokio"] }
