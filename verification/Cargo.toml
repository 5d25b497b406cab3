[package]
name = "vnc"
version = "0.1.0"
edition = "2021"
publish = false

[dependencies]
flate2 = "1"
rustls = { version = "0.21", features = ["dangerous_configuration"] }
tokio = { version = "1", features = ["io-util", "macros", "net", "rt", "sync"] }
tokio-rustls = "0.24"
