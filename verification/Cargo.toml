[package]
name = "borgtui"
version = "0.1.0"
edition = "2021"
publish = false

[dependencies]
serde_json = "=1.0.151"
glob = "=0.3.4"
serde = { version = "=1.0.229", features = ["derive"] }
tokio = { version = "=1.53.2", features = ["full"] }
clap = { version = "=4.6.7", features = ["derive", "env"] }
anyhow = "=1.0.104"
chrono = "=0.4.45"
borgbackup = { version = "=0.10.1", features = ["tokio"] }
keyring = "=4.2.0"
walkdir = "=2.5.0"
dirs = "=5.0.1"
