[package]
name = "rscloud"
version = "0.1.0"
edition = "2021"
publish = false

[dependencies]
daggy = { version = "=0.8.1", features = ["stable_dag"] }
petgraph = "=0.7.1"
serde = { version = "=1.0.229", features = ["derive"] }
serde_json = "=1.0.154"
anyhow = "=1.0.104"
thiserror = "=1.0.69"
bincode = "=1.3.3"
tokio = { version = "=1.54.1", features = ["rt-multi-thread"] }
ipnet = "=2.12.2"
aws-config = "=1.13.0"
aws-sdk-sts = "=1.124.0"
aws-sdk-iam = "=1.133.0"
aws-sdk-lambda = "=1.156.0"
aws-sdk-scheduler = "=1.119.0"
aws-sdk-sfn = "=1.125.0"
aws-sdk-apigateway = "=1.125.0"
