[package]
name = "khm"
version = "0.1.0"
edition = "2021"
publish = false

[dependencies]
regex = "1"
base64 = "0.22"
urlencoding = "2"
serde = { version = "1", features = ["derive"] }
serde_json = "1"
hostname = "0.4"
dirs = "5"
reqwest = { version = "0.12", features = ["json"] }
log = "0.4"
env_logger = "0.11"
clap = { version = "4", features = ["derive"] }
actix-web = "4"
tokio = { version = "1", features = ["full"] }
tokio-postgres = "0.7"
trust-dns-resolver = "0.23"
futures = "0.3"
chrono = "0.4"
