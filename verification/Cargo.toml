[package]
name = "solana_rpc_transactions"
version = "0.1.0"
edition = "2021"
publish = false

[dependencies]
borsh = { version = "=1.8.1", features = ["derive"] }
futures-util = "0.3"
reqwest = { version = "0.12", default-features = false, features = ["json"] }
serde = { version = "1", features = ["derive"] }
serde_json = "=1.0.154"
serde_yaml = "0.9"
solana-program = "=2.3.0"
solana-sdk = "=2.3.1"
tokio = { version = "1", features = ["full"] }
