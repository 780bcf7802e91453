[package]
name = "messenger"
version = "0.1.0"
edition = "2021"
publish = false

[dependencies]
aes-gcm = "=0.10.3"
anyhow = "=1.0.104"
axum = { version = "=0.8.9", features = ["ws"] }
base64 = "=0.22.1"
clap = { version = "=4.6.7", features = ["derive", "env"] }
crossterm = { version = "=0.28.1", features = ["event-stream"] }
dashmap = "=6.2.1"
ed25519-dalek = { version = "=2.2.0", features = ["rand_core"] }
futures = "=0.3.34"
futures-util = "=0.3.34"
hkdf = "=0.12.4"
hmac = "=0.12.1"
rand = "=0.8.8"
ratatui = { version = "=0.29.0", features = ["unstable-rendered-line-info"] }
rusqlite = { version = "=0.37.0", features = ["bundled"] }
serde = { version = "=1.0.229", features = ["derive"] }
serde_json = "1"
sha2 = "=0.10.9"
thiserror = "=2.0.21"
tokio = { version = "=1.54.1", features = ["full"] }
tokio-rusqlite = { version = "=0.7.0", features = ["bundled"] }
tokio-tungstenite = { version = "=0.28.0", features = ["rustls-tls-webpki-roots"] }
tracing = "=0.1.44"
tracing-subscriber = { version = "=0.3.23", features = ["env-filter"] }
tui-textarea = "=0.7.0"
uuid = { version = "=1.29.0", features = ["v4", "serde"] }
x25519-dalek = { version = "=2.0.1", features = ["static_secrets"] }
zeroize = { version = "=1.9.1", features = ["derive"] }

[dev-dependencies]
tempfile = "=3.27.0"
