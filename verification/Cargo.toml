[package]
name = "request_duplicator"
version = "0.1.0"
edition = "2021"
publish = false

[dependencies]
axum = "0.6"
bytes = "1"
hyper = { version = "0.14", features = ["client", "http1", "server", "tcp"] }
serde = { version = "1", features = ["derive"] }
serde_json = "1"
tokio = { version = "1", features = ["macros", "rt-multi-thread", "sync", "time"] }
tracing = "0.1"
