[package]
name = "gateway"
version = "0.1.0"
edition = "2021"
publish = false

[dependencies]
cidr = "0.2"
dashmap = "5"
governor = "0.6"
uuid = { version = "1", features = ["v4"] }
pingora = { version = "0.4", features = ["proxy", "lb"] }
pingora-core = "0.4"
pingora-proxy = "0.4"
pingora-load-balancing = "0.4"
async-trait = "0.1"
prometheus = "0.13"
axum = "0.6"
tokio = { version = "1", features = ["rt-multi-thread", "macros"] }
serde = { version = "1", features = ["derive"] }
serde_yaml = "0.9"
notify = "6"
parking_lot = "0.12"
anyhow = "1"
thiserror = "1"
tracing = "0.1"
tracing-subscriber = { version = "0.3", features = ["env-filter"] }
