[package]
name = "btc_wallet"
version = "0.0.2"
edition = "2021"
publish = false

[dependencies]
base64 = "0.22"
bip39 = { version = "2", features = ["rand"] }
bitcoin = { version = "0.32", features = ["rand-std"] }
bitcoin_hashes = "0.14"
clap = { version = "4", features = ["derive"] }
dirs = "5"
hex = "0.4"
reqwest = { version = "0.12", default-features = false, features = ["json", "rustls-tls"] }
serde = { version = "1", features = ["derive"] }
serde_json = "1"
tokio = { version = "1", features = ["full"] }
