[package]
name = "sol_tx_aggregator"
version = "0.1.0"
edition = "2021"
publish = false

[dependencies]
anyhow = "1"
async-trait = "0.1"
axum = "0.7"
bincode = "1"
dashmap = "6"
serde = { version = "1", features = ["derive"] }
solana-sdk = "2.3"
solana-transaction-status = "2.3"
thiserror = "1"
tokio = { version = "1", features = ["rt-multi-thread", "macros", "sync", "time", "net"] }
tokio-retry = "0.3"
tower-http = { version = "0.5", features = ["cors"] }
tracing = "0.1"
tracing-subscriber = { version = "0.3", default-features = false, features = ["fmt", "std"] }
typed-builder = "0.18"
