[package]
name = "event_sourcing"
version = "0.1.0"
edition = "2021"

[dependencies]
uuid = { version = "*", features = ["v4"] }
chrono = "*"
kafka = { version = "*", default-features = false }
retry = "*"
