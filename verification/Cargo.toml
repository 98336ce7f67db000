[package]
name = "imgproxy"
version = "0.1.0"
edition = "2021"
publish = false

[dependencies]
image = "*"
axum = "*"
tokio = { version = "*", features = ["full"] }
reqwest = { version = "*", default-features = false }
tower-http = { version = "*", features = ["trace"] }
tracing = "*"
tracing-subscriber = "*"
color-eyre = "*"
