[package]
name = "logstore"
version = "0.1.0"
edition = "2021"
publish = false

[dependencies]
chrono = "*"
notify = "*"
serde = { version = "*", features = ["derive"] }
smallvec = "*"
tokio = { version = "*", features = ["full"] }
