[package]
name = "web_controller"
version = "0.1.0"
edition = "2021"
publish = false

[dependencies]
uuid = "*"
axum = { version = "*", features = ["ws"] }
dashmap = "*"
evdev = "*"
serde = { version = "*", features = ["derive"] }
serde_json = "*"
tokio = { version = "*", features = ["rt-multi-thread", "macros", "net", "time", "sync"] }
tower-http = { version = "*", features = ["fs"] }
tracing-subscriber = "*"
