[package]
name = "chart_engine"
version = "0.1.0"
edition = "2021"
publish = false

[dependencies]
uuid = { version = "1", features = ["v4"] }
image = { version = "0.24", default-features = false }
arboard = { version = "3.2" }
