[package]
name = "monrst"
version = "0.1.0"
edition = "2021"
publish = false

[dependencies]
anyhow = "1"
argh = "0.1"
chrono = "0.4"
log = "0.4"
log4rs = "1"
rand = "0.8"
rustls = "0.21"
rustls-pemfile = "1"
tokio = { version = "1", features = ["rt-multi-thread", "net", "io-util", "macros"] }
tokio-rustls = "0.24"
uuid = { version = "1", features = ["v4"] }
