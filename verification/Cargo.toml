[package]
name = "agent_poker"
version = "0.1.0"
edition = "2021"
publish = false

[dependencies]
anyhow = "1"
async-trait = "0.1"
axum = "0.8"
chrono = { version = "0.4", features = ["serde"] }
ethabi = "18"
futures-util = "0.3"
hex = "0.4"
jsonrpsee = { version = "0.24", features = ["server"] }
k256 = { version = "0.13", features = ["ecdsa"] }
reqwest = { version = "0.12", default-features = false, features = ["json", "rustls-tls"] }
rlp = "0.5"
rs_poker = { version = "=4.1.0", default-features = false }
serde = { version = "1", features = ["derive"] }
serde_json = "1"
sha3 = "0.10"
sqlx = { version = "0.8", default-features = false, features = ["runtime-tokio", "postgres", "uuid", "chrono", "json"] }
thiserror = "2"
tokio = { version = "1", features = ["full"] }
tokio-tungstenite = "0.24"
toml = "0.8"
tracing = "0.1"
tracing-subscriber = { version = "0.3", features = ["env-filter", "json"] }
uuid = { version = "1", features = ["v7", "serde"] }
