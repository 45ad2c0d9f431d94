[package]
name = "outlay"
version = "0.3.1"
edition = "2021"
publish = false

[dependencies]
anyhow = "1"
axum = { version = "=0.8.9", features = ["ws"] }
contextvm-sdk = "=0.2.2"
dotenvy = "0.15"
futures = "0.3"
lru = "=0.12.5"
nostr-database = "=0.45.2"
nostr-memory = "=0.45.2"
nostr-sdk = { version = "=0.44.1", features = ["nip44", "nip59"] }
nostr-sqlite = "=0.45.2"
reqwest = { version = "0.12", default-features = false, features = ["json", "rustls-tls"] }
rmcp = { version = "=1.8.0", features = ["server", "client", "macros"] }
serde = { version = "1", features = ["derive"] }
serde_json = "=1.0.154"
thiserror = "2"
tokio = { version = "1", features = ["full"] }
tokio-tungstenite = "=0.29.0"
tracing = "0.1"
tracing-subscriber = { version = "0.3", features = ["env-filter"] }
