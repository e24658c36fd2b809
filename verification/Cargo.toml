[package]
name = "fpga"
version = "0.1.0"
edition = "2021"
publish = false

[dependencies]
bincode = "1.3"
solana-hash = "2.2"
solana-message = "2.2"
solana-packet = { version = "2.2", features = ["bincode"] }
solana-pubkey = "2.2"
solana-sdk-ids = "2.2"
solana-short-vec = "2.2"
solana-signature = { version = "2.2", features = ["verify"] }

[dev-dependencies]
solana-keypair = "2.2"
solana-signer = "2.2"
solana-system-transaction = "2.2"
solana-transaction = { version = "2.2", features = ["serde", "bincode"] }
