[package]
name = "wind"
version = "0.1.0"
edition = "2021"
publish = false

[dependencies]
bytes = "1"
dashmap = "5"
glob = "0.3"
tokio = { version = "1", features = ["net", "io-util", "sync", "time", "rt-multi-thread"] }
uuid = { version = "1", features = ["v4"] }
