[package]
name = "tower_compress"
version = "0.1.0"
edition = "2021"
publish = false

[dependencies]
deflate = { version = "=1.0.0", features = ["gzip"] }
http = "=1.5.0"
futures = "=0.1.31"
tokio-io = "=0.1.13"
http-connection = "=0.1.0"
tower-service = "=0.2.0"

[dev-dependencies]
flate2 = "=1.1.10"
