[package]
name = "aurora_engine_migration_tool"
version = "0.1.0"
edition = "2021"
publish = false

[dependencies]
anyhow = "1"
aurora-engine-types = "=1.0.0"
base64 = "=0.13.1"
clap = { version = "4", default-features = false, features = ["std", "cargo", "help", "usage", "error-context"] }
libc = "0.2"
near-crypto = "=0.17.0"
near-jsonrpc-client = { version = "0.6", default-features = false }
near-jsonrpc-primitives = "0.17"
near-primitives = "=0.17.0"
near-sdk = { version = "=4.1.1", default-features = false }
serde = { version = "1", features = ["derive"] }
serde_json = "=1.0.154"
tokio = { version = "1", features = ["macros", "rt-multi-thread", "signal", "sync", "time"] }
tokio-stream = "=0.1.14"
