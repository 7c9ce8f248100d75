[package]
name = "zelos_trace"
version = "0.1.0"
edition = "2021"
publish = false

[dependencies]
flume = "*"
uuid = { version = "*", features = ["v7"] }
serde_json = "*"
base64 = "*"
