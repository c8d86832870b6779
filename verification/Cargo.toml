[package]
name = "durable-streams-kafka-bridge"
version = "0.2.3"
edition = "2021"
publish = false

[dependencies]
async-stream = "0.3"
async-trait = "0.1"
base64 = "0.22"
bytes = "1"
clap = { version = "4", features = ["derive"] }
futures-core = "0.3"
futures-util = "0.3"
rand = "0.9"
rdkafka = "0.37"
reqwest = { version = "0.12", default-features = false, features = ["rustls-tls", "stream"] }
serde = { version = "1", features = ["derive"] }
serde_json = "1"
thiserror = "2"
tokio = { version = "1", features = ["fs", "macros", "rt-multi-thread", "signal", "sync", "time"] }
toml = "0.8"
url = "2"
