[package]
name = "apiary"
version = "0.1.0"
edition = "2021"
publish = false

[dependencies]
axum = "=0.8.9"
base64 = "=0.22.1"
chrono = { version = "=0.4.45", features = ["serde"] }
clap = { version = "=4.6.7", features = ["derive", "env"] }
nostr = { version = "=0.45.6", features = ["os-rng"] }
serde = { version = "=1.0.229", features = ["derive"] }
serde_json = "=1.0.154"
serde_yaml = "=0.9.34"
tokio = { version = "=1.54.1", features = ["rt-multi-thread", "macros", "net", "time"] }
tungstenite = { version = "=0.30.0", features = ["rustls-tls-webpki-roots"] }
