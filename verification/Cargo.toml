[package]
name = "ping_exporter"
version = "0.1.0"
edition = "2021"
publish = false

[dependencies]
tacho = "*"
trust-dns-resolver = "*"
rand = "0.8"
hyper = { version = "*", features = ["http1", "server"] }
hyper-util = { version = "*", features = ["full"] }
http-body-util = "*"
tokio = { version = "1", features = ["full"] }
tokio-ping = "*"
futures = "0.1"
lazy_static = "1"
