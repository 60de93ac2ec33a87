[package]
name = "retro_homepage"
version = "0.1.0"
edition = "2021"
publish = false

[dependencies]
axum = "0.8"
libc = "0.2"
serde = { version = "1", features = ["derive"] }
serde_json = "1"
tokio = { version = "1", features = ["rt-multi-thread", "macros", "net", "time"] }
tower-http = { version = "0.6", features = ["cors"] }
