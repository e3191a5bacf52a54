[package]
name = "dogtail"
version = "0.1.0"
edition = "2021"
publish = false

[dependencies]
anyhow = "=1.0.104"
chrono = "=0.4.45"
clap = { version = "=4.6.7", features = ["derive"] }
futures = "=0.3.34"
rand = "=0.8.8"
reqwest = { version = "=0.11.27", features = ["json"] }
serde_json = "=1.0.154"
tokio = { version = "=1.54.1", features = ["full"] }
tracing = "=0.1.44"
tracing-subscriber = { version = "=0.3.23", features = ["env-filter"] }
tracing-tree = { version = "=0.2.5", features = ["time"] }
