[package]
name = "transfer_manager"
version = "0.1.0"
edition = "2021"
publish = false

[dependencies]
anyhow = "=1.0.104"
aws-config = "=1.12.0"
aws-sdk-cloudwatch = "=1.135.0"
aws-sdk-lambda = "=1.151.0"
aws-sdk-s3 = "=1.152.0"
aws-types = "~1.6.0"
base64 = "=0.13.1"
bytes = "=1.12.1"
clap = { version = "=3.2.25", features = ["derive"] }
lazy_static = "=1.5.1"
serde = { version = "=1.0.229", features = ["derive"] }
serde_json = "=1.0.154"
sha1 = "=0.10.7"
tokio = { version = "=1.54.1", features = ["fs", "io-util", "macros", "rt-multi-thread", "sync", "time"] }
tracing = "=0.1.44"
