[package]
name = "coldsnap"
version = "0.1.0"
edition = "2021"
publish = false

[dependencies]
aws-sdk-ebs = "1"
base64 = "0.22"
serde = { version = "1", features = ["derive"] }
serde_json = "1"
sha2 = "0.10"
