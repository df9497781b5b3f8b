[package]
name = "tokio_kcp"
version = "0.1.0"
edition = "2021"
publish = false

[dependencies]
byte_string = "*"
bytes = "0.4"
futures = "0.1"
kcp = "*"
log = "0.4"
mio = "0.6"
net2 = "0.2"
rand = "0.8"
tokio = { version = "1", features = ["io-util", "macros", "net", "rt", "sync", "time"] }
tokio-core = "0.1"
tokio-io = "0.1"
tokio-proto = "0.1"
tokio-service = "0.1"
