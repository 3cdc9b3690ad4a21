[package]
name = "lock_bridge"
version = "0.1.0"
edition = "2021"
publish = false

[dependencies]
alloy = { version = "=0.9.2", default-features = false, features = ["std", "signer-local", "providers", "rpc-types", "sol-types", "transport-http", "reqwest"] }
anyhow = "=1.0.104"
clap = { version = "=4.6.7", features = ["derive", "env"] }
dotenvy = "=0.15.7"
hex = "=0.4.3"
holo_hash = { version = "=0.5.6", default-features = false, features = ["encoding", "hashing"] }
rmp-serde = "=1.3.0"
rusqlite = { version = "=0.40.2", features = ["bundled"] }
serde = { version = "=1.0.219", features = ["derive"] }
serde_json = "=1.0.143"
tokio = { version = "=1.54.1", features = ["rt-multi-thread", "macros", "time"] }
tracing = "=0.1.44"
tracing-subscriber = "=0.3.23"
