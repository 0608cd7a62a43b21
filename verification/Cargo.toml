[package]
name = "session_core"
version = "0.1.0"
edition = "2021"
publish = false

[dependencies]
uuid = { version = "*", features = ["v4"] }
axum = "*"
tokio = { version = "*", features = ["macros", "rt-multi-thread"] }
tower-cookies = "*"
cookie = "*"
redis = { version = "*", features = ["tokio-comp", "connection-manager"] }
chrono = "*"
serde = { version = "*", features = ["derive"] }
serde_json = "*"
