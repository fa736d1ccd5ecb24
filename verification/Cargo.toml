[package]
name = "rari_cache"
version = "0.1.0"
edition = "2021"
publish = false

[dependencies]
async-trait = "0.1"
dashmap = "6"
lru = "*"
parking_lot = "0.12"
redb = "3"
redis = { version = "*", features = ["tokio-comp"] }
serde_json = "1"
thiserror = "2"
tokio = { version = "1", features = ["fs", "macros", "rt-multi-thread", "sync", "time"] }
tracing = "0.1"
