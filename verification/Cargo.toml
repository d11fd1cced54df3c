[package]
name = "syscallmind"
version = "0.1.0"
edition = "2021"
publish = false

[dependencies]
lru = "0.12"
crossbeam-channel = "0.5"
rand = "0.8"
serde = { version = "1", features = ["derive"] }
serde_json = "1"
anyhow = "1"
clap = { version = "4", features = ["derive"] }
tracing = "0.1"
tracing-subscriber = { version = "0.3", features = ["env-filter"] }
parking_lot = "0.12"
