[package]
name = "sol_acc"
version = "0.1.0"
edition = "2021"
publish = false

[dependencies]
base64ct = { version = "=1.8.3", features = ["alloc"] }
solana-pubkey = "=3.0.0"
solana-address-lookup-table-interface = { version = "=3.2.0", features = ["bincode", "bytemuck"] }
solana-rpc-client = { version = "=3.1.14", default-features = false }
solana-rpc-client-api = "=3.1.14"
solana-account-decoder-client-types = { version = "=3.1.14", features = ["zstd"] }
solana-commitment-config = "=3.1.1"
clap = { version = "*", default-features = false, features = ["std", "derive", "env", "help", "usage", "error-context"] }
serde_json = { version = "*", features = ["preserve_order"] }
