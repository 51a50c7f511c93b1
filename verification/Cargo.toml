[package]
name = "holder_report"
version = "0.1.0"
edition = "2021"
publish = false

[dependencies]
spl-token = "=9.0.0"
solana-pubkey = "=3.0.0"
solana-program-pack = "=3.1.0"
solana-rpc-client = { version = "=3.1.14", default-features = false }
solana-rpc-client-api = "=3.1.14"
solana-commitment-config = "=3.1.1"
solana-account-decoder-client-types = { version = "=3.1.14", default-features = false }
tokio = { version = "=1.53.2", features = ["macros", "rt-multi-thread"] }
anyhow = "=1.0.104"
log = "=0.4.34"
dotenv = "=0.15.0"
serde = { version = "=1.0.229", features = ["derive"] }
