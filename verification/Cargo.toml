[package]
name = "uopool"
version = "0.1.0"
edition = "2021"
publish = false

[dependencies]
ethers = { version = "=2.0.14", default-features = false }
serde_json = "*"
tokio = { version = "=1.53.2", features = ["rt", "macros", "time"] }
