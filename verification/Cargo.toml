[package]
name = "s3_objects"
version = "0.1.0"
edition = "2021"
publish = false

[dependencies]
bytes = "=1.12.1"
futures-core = "=0.3.34"
futures-util = { version = "=0.3.34", default-features = false, features = ["std"] }
http = "=1.5.0"
md-5 = "0.10"
tokio = { version = "=1.54.1", default-features = false, features = ["io-util"] }
