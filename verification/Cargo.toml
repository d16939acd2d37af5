[package]
name = "trading_engine"
version = "0.1.0"
edition = "2021"
publish = false

[dependencies]
async-trait = "=0.1.92"
chrono = "=0.4.45"
clap = { version = "=4.6.7", features = ["derive"] }
futures-util = "=0.3.34"
reqwest = { version = "=0.11.27", features = ["json", "cookies", "native-tls"] }
serde = { version = "=1.0.229", features = ["derive"] }
serde_json = "=1.0.154"
tokio = { version = "=1.54.1", features = ["full"] }
tokio-tungstenite = { version = "=0.21.0", features = ["native-tls"] }
