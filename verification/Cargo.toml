[package]
name = "database_links"
version = "0.1.0"
edition = "2021"
publish = false

[dependencies]
anyhow = "=1.0.104"
clap = { version = "=3.2.25", features = ["derive", "env"] }
comfy-table = { version = "=7.2.2", default-features = false }
dialoguer = "=0.10.4"
env_logger = "=0.10.2"
serde = { version = "=1.0.229", features = ["derive"] }
serde_json = "=1.0.154"
tokio = { version = "=1.54.1", features = ["rt-multi-thread", "macros"] }
uuid = { version = "=1.29.0", features = ["v4"] }
