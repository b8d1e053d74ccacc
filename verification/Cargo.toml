[package]
name = "sealed_infra"
version = "0.1.0"
edition = "2021"
publish = false

[dependencies]
sha2 = "=0.10.9"
hex = "=0.4.3"
shell-escape = "=0.1.5"
typed-path = "=0.13.0"
git-url-parse = "0.4"
k8s-openapi = { version = "=0.29.0", features = ["latest"] }
serde = { version = "=1.0.229", features = ["derive"] }
serde_yaml = "=0.9.34"
serde_json = "=1.0.154"
clap = { version = "=4.6.7", features = ["derive"] }
tokio = { version = "=1.54.1", features = ["full"] }
anyhow = "=1.0.104"
thiserror = "=1.0.69"
walkdir = "=2.5.0"
tempfile = "=3.27.0"
dirs = "=5.0.1"
console = "=0.15.11"
log = "=0.4.35"
env_logger = "=0.11.11"
dotenv = "=0.15.0"
