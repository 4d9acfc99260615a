[package]
name = "waddle"
version = "0.1.0"
edition = "2021"
publish = false

[dependencies]
globset = "*"
chrono = "*"
uuid = { version = "*", features = ["v4"] }
tokio = { version = "*", features = ["rt", "time", "sync", "macros"] }
serde = { version = "*", features = ["derive"] }
serde_json = "*"
