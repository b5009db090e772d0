[package]
name = "rpc_plugin"
version = "0.1.0"
edition = "2021"
publish = false

[dependencies]
bincode = "1.3.3"
jsonrpc-core = "18.0.0"
libloading = "0.7.4"
once_cell = "1"
serde = { version = "1", features = ["derive"] }
solana-account = "2.2"
solana-commitment-config = "2.2"
solana-message = { version = "2.4", features = ["serde"] }
solana-pubkey = "2.4"
solana-transaction = { version = "2.2", features = ["serde"] }
solana-transaction-status = "2.3"
tracing = "0.1"
