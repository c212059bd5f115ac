[package]
name = "explorer"
version = "0.1.0"
edition = "2021"
publish = false

[dependencies]
parity-scale-codec = "3"
redis = { version = "0.23", features = ["aio", "tokio-comp"] }
tokio = { version = "1", features = ["full"] }
async-trait = "0.1"
anyhow = "1"
clap = { version = "2", default-features = false }
config = { version = "0.11", default-features = false, features = ["toml"] }
serde = { version = "1", features = ["derive"] }
dotenv = "0.15"
log = "0.4"
fast_log = "1.7"
yansi = "0.5"
num_cpus = "1"
celery = "0.5"
meilisearch-sdk = "0.33"
