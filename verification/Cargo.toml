[package]
name = "token_pipeline"
version = "0.1.0"
edition = "2021"
publish = false

[dependencies]
solana-sdk = "=1.18.26"
spl-token-2022 = "=1.0.0"
spl-associated-token-account = "=2.3.0"
spl-token-metadata-interface = "=0.2.0"
spl-type-length-value = "=0.3.0"
tokio = { version = "1", features = ["rt-multi-thread", "macros", "time"] }
anyhow = "1"
