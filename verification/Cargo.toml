[package]
name = "relay_core"
version = "0.1.0"
edition = "2021"
publish = false

[dependencies]
lru_time_cache = "=0.11.11"
tokio = { version = "1", features = ["net", "sync", "time", "rt", "rt-multi-thread", "io-util"] }
futures = "0.3"
bytes = "1"
log = "0.4"
