[package]
name = "monitor_core"
version = "0.1.0"
edition = "2021"
publish = false

[dependencies]
regex = "1"
sha2 = "0.10"
serde = { version = "1", features = ["derive"] }
serde_json = "1"
tokio = { version = "1", features = ["rt-multi-thread", "macros", "sync", "time", "fs", "io-util"] }
reqwest = { version = "0.12", default-features = false, features = ["json"] }
notify = "6"
walkdir = "2"
chrono = "0.4"
