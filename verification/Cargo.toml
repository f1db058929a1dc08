[package]
name = "obvious3"
version = "0.1.0"
edition = "2021"
publish = false

[dependencies]
anyhow = "1"
chrono = { version = "0.4", features = ["serde"] }
clap = { version = "4", features = ["derive"] }
futures = "0.3"
object_store = "0.11"
regex = "1"
serde = { version = "1", features = ["derive"] }
serde_json = "1"
tokio = { version = "1", features = ["io-std", "io-util", "macros", "rt-multi-thread", "sync"] }
tokio-stream = { version = "0.1", features = ["io-util"] }
tracing-subscriber = "0.3"
url = { version = "2", features = ["serde"] }
