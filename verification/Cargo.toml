[package]
name = "vbridge"
version = "0.1.0"
edition = "2021"
publish = false

[dependencies]
anyhow = "1"
bytes = "1"
log = "0.4"
smoltcp = "0.11"
tokio = { version = "1", features = ["sync", "rt", "macros", "time"] }
uuid = "1"

[dev-dependencies]
etherparse = "0.13"
