[package]
name = "cheese_gateway"
version = "0.1.0"
edition = "2021"
publish = false

[dependencies]
log = "0.4"
serde_json = "1"
simplelog = "0.12"
tokio = { version = "1", features = ["macros", "rt", "sync", "time"] }
