[package]
name = "coral"
version = "0.1.0"
edition = "2021"
publish = false

[dependencies]
flate2 = "=1.1.10"
uuid = { version = "=1.29.0", features = ["v3"] }
serde = { version = "=1.0.229", features = ["derive"] }
serde_json = "=1.0.154"
toml = "=0.8.23"
tokio = { version = "=1.54.1", features = ["rt-multi-thread", "macros", "net", "sync", "time", "fs", "io-util", "io-std", "signal"] }
bytes = "=1.12.1"
futures = "=0.3.34"
tokio-util = { version = "=0.7.20", features = ["codec"] }
tokio-stream = "=0.1.19"
aes = "=0.8.4"
cfb8 = "=0.8.1"
cipher = "=0.4.4"
rsa = "=0.9.10"
rand = "=0.8.8"
base64 = "=0.22.1"
