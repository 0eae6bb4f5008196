[package]
name = "cdk"
version = "0.1.0"
edition = "2021"
publish = false

[dependencies]
bitcoin = { version = "0.32", features = ["rand-std"] }
uuid = { version = "1", features = ["v4"] }
serde = { version = "1", features = ["derive"] }
serde_json = "1"
thiserror = "1"
tracing = "0.1"
axum = "0.7"
cln-rpc = "*"
