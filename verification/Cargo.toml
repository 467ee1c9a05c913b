[package]
name = "grouse-roam-core"
version = "0.1.0"
edition = "2021"
publish = false

[dependencies]
base64 = "0.22"
futures = { version = "0.3", default-features = false, features = ["std"] }
iroh = { version = "=1.0.3", default-features = false }
parking_lot = "0.12"
tokio = { version = "1", features = ["rt-multi-thread"] }
uniffi = { version = "0.32", default-features = false }
