[package]
name = "pubsys_ecr"
version = "0.1.0"
edition = "2021"
publish = false

[dependencies]
aws-credential-types = "1"
aws-sdk-sts = { version = "1", default-features = false, features = ["rt-tokio"] }
aws-types = "1"
clap = { version = "4", features = ["derive"] }
indicatif = "0.17"
log = "0.4"
serde = { version = "1", features = ["derive"] }
tempfile = "3"
tokio-retry = "0.3"
toml = "0.8"
