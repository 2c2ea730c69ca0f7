[package]
name = "merx"
version = "0.1.0"
edition = "2021"
publish = false

[dependencies]
serde_json = "1"
chrono = { version = "0.4", default-features = false, features = ["clock", "std"] }
url = "2"
serde = { version = "1", features = ["derive"] }
axum = { version = "0.6", features = ["ws", "headers", "macros"] }
tokio = { version = "1", features = ["full"] }
tokio-tungstenite = "0.20"
futures = "0.3"
futures-util = "0.3"
reqwest = { version = "0.11", default-features = false, features = ["json", "rustls-tls"] }
tracing = "0.1"
tracing-subscriber = { version = "0.3", features = ["env-filter"] }
tower-http = { version = "0.4", features = ["trace"] }
argh = "0.1"
