[package]
name = "minio_rsc"
version = "0.1.0"
edition = "2021"
publish = false

[dependencies]
async-stream = "0.3"
base64 = "0.21"
bytes = "1"
chrono = { version = "0.4", default-features = false, features = ["clock"] }
futures = "0.3"
futures-core = "0.3"
futures-util = "0.3"
hmac = "0.12"
hyper = "0.14"
md5 = "0.7"
regex = "1"
reqwest = { version = "0.11", features = ["stream"] }
sha2 = "0.10"
tokio = { version = "1", features = ["fs", "io-util", "sync"] }
