[package]
name = "grpc_core"
version = "0.1.0"
edition = "2021"
publish = false

[dependencies]
http = "*"
http-body = "*"
http-body-util = "*"
hyper = { version = "*", features = ["client", "http2"] }
hyper-util = { version = "*", features = ["tokio"] }
pin-project = "*"
tokio = { version = "*", features = ["rt", "sync", "time"] }
tokio-stream = "*"
tower = { version = "*", features = ["limit", "util"] }
tower-service = "*"
