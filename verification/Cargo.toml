[package]
name = "indexer"
version = "0.1.0"
edition = "2021"
publish = false

[dependencies]
uuid = { version = "=1.29.0", features = ["v4"] }
chrono = { version = "=0.4.45", default-features = false, features = ["std", "clock"] }
serde = { version = "=1.0.229", features = ["derive"] }
serde_json = "=1.0.154"
tokio = { version = "=1.54.1", features = ["full"] }
anyhow = "=1.0.104"
log = "=0.4.34"
thiserror = "=2.0.21"
dotenv = "=0.15.0"
async-trait = "=0.1.92"
redis = { version = "=1.8.0", features = ["tokio-comp"] }
sqlx = { version = "=0.9.0", features = ["postgres", "runtime-tokio", "chrono", "uuid"] }
actix-web = "=4.18.1"
actix-cors = "=0.7.2"
tracing-subscriber = "=0.3.23"
solana-pubkey = "=4.4.0"
refinery = { version = "=0.10.0", features = ["postgres", "config"] }
