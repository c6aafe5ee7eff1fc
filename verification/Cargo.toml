[package]
name = "cryo_freeze"
version = "0.2.0"
edition = "2021"
publish = false

[dependencies]
async-channel = "=1.9.0"
async-trait = "=0.1.92"
backoff = { version = "=0.4.0", features = ["tokio"] }
chrono = { version = "=0.4.45", default-features = false, features = ["std"] }
cloud-storage = { version = "=0.11.1", default-features = false, features = ["rustls-tls", "ring", "pem", "global-client"] }
ethers = { version = "=2.0.14", default-features = false }
futures = "0.3"
indicatif = { version = "=0.17.11", default-features = false }
polars = { version = "=0.32.1", default-features = false }
thiserror = "=1.0.69"
tokio = { version = "1", features = ["rt", "rt-multi-thread", "sync", "fs"] }
tokio-util = { version = "0.7", features = ["io"] }
