[package]
name = "evm_debugger"
version = "0.1.0"
edition = "2021"
publish = false

[dependencies]
alloy-primitives = { version = "1", default-features = false, features = ["std", "serde"] }
revm = { version = "*", default-features = false, features = ["std"] }
url = "2"
hex = "0.4"
anyhow = "1"
serde = { version = "1", features = ["derive"] }
serde_json = "1"
uuid = { version = "1", features = ["v4"] }
tokio = { version = "1", features = ["rt-multi-thread", "macros", "sync", "net"] }
axum = { version = "0.7", default-features = false, features = ["json", "tokio", "http1", "query"] }
tower-http = { version = "0.5", features = ["cors", "trace"] }
dashmap = "6"
tracing = "0.1"
tracing-subscriber = { version = "0.3", features = ["env-filter"] }
dotenvy = "0.15"
