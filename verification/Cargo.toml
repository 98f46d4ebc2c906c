[package]
name = "jito_miner"
version = "0.1.0"
edition = "2021"
publish = false

[dependencies]
clap = { version = "4", default-features = false, features = ["derive", "std", "help", "usage", "error-context"] }
colored = "2"
drillx = "=2.0.1"
env_logger = { version = "0.9", default-features = false }
eyre = { version = "0.6", default-features = false }
futures-util = "0.3"
log = "0.4"
ore-api = "=2.2.0"
rand = "=0.8.8"
reqwest = { version = "0.11", default-features = false, features = ["json"] }
serde = { version = "1", features = ["derive"] }
serde_json = "=1.0.154"
solana-program = "=1.18.26"
solana-sdk = "=1.18.26"
thiserror = "1"
tokio = { version = "1", default-features = false, features = ["macros", "rt-multi-thread", "sync", "time"] }
tokio-tungstenite = { version = "0.24", default-features = false, features = ["connect"] }
tonic = { version = "0.10", features = ["tls"] }
tracing = "0.1"
