[package]
name = "kurumi_deploy"
version = "0.1.0"
edition = "2021"
publish = false

[dependencies]
anyhow = "=1.0.104"
async-trait = "=0.1.92"
axum = "=0.7.9"
base64 = "=0.22.1"
chrono = "=0.4.45"
dirs = "=5.0.1"
encoding_rs = "=0.8.44"
md5 = "=0.7.0"
russh = "=0.45.0"
russh-sftp = "=2.4.0"
serde = { version = "=1.0.229", features = ["derive"] }
serde_json = "=1.0.154"
tokio = { version = "=1.54.1", features = ["full"] }
tokio-util = "=0.7.20"
uuid = { version = "=1.29.0", features = ["v4"] }
walkdir = "=2.5.0"
zip = "=2.6.1"
