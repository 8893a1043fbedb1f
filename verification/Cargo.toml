[package]
name = "tracing_json_layer"
version = "0.1.0"
edition = "2021"
publish = false

[dependencies]
serde = { version = "=1.0.229", features = ["derive"] }
serde_json = { version = "=1.0.151", features = ["preserve_order"] }
chrono = "=0.4.45"
tracing = "=0.1.44"
tracing-subscriber = { version = "=0.3.23", features = ["json"] }
valuable = { version = "=0.1.1", features = ["derive"] }
valuable-serde = "=0.1.1"
