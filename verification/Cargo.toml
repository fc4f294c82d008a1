[package]
name = "chat_generation"
version = "0.1.0"
edition = "2021"
publish = false

[dependencies]
futures-util = "0.3"
serde_json = "1"
tokio = { version = "1", features = ["macros", "rt"] }
tracing = "0.1"
uuid = "1"
