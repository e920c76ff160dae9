[package]
name = "virtual_sockets"
version = "0.1.0"
edition = "2021"
publish = false

[dependencies]
bytes = "1"
iroh-quinn = "*"
n0-future = "*"
rcgen = "0.13"
rustls = { version = "0.23", default-features = false, features = ["ring", "std"] }
tokio = { version = "1", features = ["rt", "sync", "time"] }
