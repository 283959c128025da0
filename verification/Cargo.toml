[package]
name = "redlight"
version = "0.1.0"
edition = "2021"
publish = false

[dependencies]
bb8-redis = "*"
rkyv = "0.8"
itoa = "1"
twilight-model = "0.16"
twilight-gateway = { version = "0.16", default-features = false }
tokio = { version = "1", features = ["rt", "macros", "time"] }
futures-util = "0.3"
thiserror = "2"
tracing = "0.1"
metrics = "0.24"
pin-project = "1"
