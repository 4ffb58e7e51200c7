[package]
name = "bumper_core"
version = "0.1.0"
edition = "2021"
publish = false

[dependencies]
futures = "0.3"
futures-channel = "0.3"
log = "0.4"
serde = { version = "1", features = ["derive"] }
serde_json = "1"
simple_logger = "*"
tokio = { version = "1", features = ["macros", "net", "rt-multi-thread"] }
tokio-tungstenite = "*"

[dev-dependencies]
ringbuf = "0.2"
