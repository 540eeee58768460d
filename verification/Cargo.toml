[package]
name = "axum_course"
version = "0.1.0"
edition = "2021"
publish = false

[dependencies]
axum = "0.7"
tokio = { version = "1", features = ["full"] }
serde = { version = "1", features = ["derive"] }
serde_json = "1"
hyper = "1"
http-body-util = "0.1"
tower = { version = "0.4", features = ["util"] }
