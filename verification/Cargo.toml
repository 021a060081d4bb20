[package]
name = "media_organizer"
version = "0.1.0"
edition = "2021"
publish = false

[dependencies]
anyhow = "=1.0.104"
chrono = "=0.4.45"
clap = { version = "=4.6.7", features = ["derive"] }
colored = "=2.2.0"
dirs = "=5.0.1"
getrandom = "=0.4.3"
indicatif = "=0.17.11"
reqwest = { version = "=0.12.28", default-features = false }
serde = { version = "=1.0.229", features = ["derive"] }
serde_json = "=1.0.154"
tokio = { version = "=1.54.1", features = ["rt-multi-thread", "macros"] }
toml = "=0.8.23"
tracing = "=0.1.44"
uuid = { version = "=1.29.0", features = ["v4"] }
walkdir = "=2.5.0"
whoami = "=1.6.1"
