[package]
name = "reorg_watcher"
version = "0.1.0"
edition = "2021"
publish = false

[dependencies]
alloy = { version = "*", default-features = false, features = ["std", "contract", "eips", "provider-http", "reqwest", "rpc-types"] }
dotenv = "*"
eyre = "*"
futures = "*"
once_cell = "*"
serde_json = "*"
tokio = { version = "*", features = ["macros", "rt-multi-thread", "sync", "time"] }
tracing = "*"
tracing-subscriber = { version = "*", default-features = false, features = ["fmt", "std"] }
