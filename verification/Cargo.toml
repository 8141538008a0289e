[package]
name = "apache_metrics"
version = "0.1.0"
edition = "2021"
publish = false

[dependencies]
futures = "=0.3.34"
http = "=0.2.12"
hyper = "=0.13.10"
hyper-openssl = "=0.8.1"
metrics = "=0.12.1"
serde = { version = "=1.0.229", features = ["derive"] }
snafu = "=0.6.10"
tokio = { version = "=0.2.25", features = ["time", "stream", "rt-core", "macros"] }
tracing = "=0.1.44"
typetag = "=0.1.8"
