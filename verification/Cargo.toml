[package]
name = "yt_dlp"
version = "0.1.0"
edition = "2021"
publish = false

[dependencies]
futures-util = "=0.3.34"
ordered-float = { version = "=5.5.1", features = ["serde"] }
reqwest = { version = "=0.13.5", default-features = false }
serde = { version = "=1.0.229", features = ["derive"] }
serde_with = "=3.24.0"
tokio = { version = "=1.54.1", features = ["process", "time", "io-util", "fs", "rt", "macros", "sync"] }
tokio-util = "=0.7.20"
tracing = "=0.1.44"
