[package]
name = "ruststack"
version = "0.1.0"
edition = "2021"
publish = false

[dependencies]
axum = "0.7"
base64 = "0.22"
bytes = "1"
chrono = "0.4"
fastrand = "2"
form_urlencoded = "1"
hex = "0.4"
http = "1"
http-body-util = "0.1"
md-5 = "0.10"
quick-xml = "0.36"
serde = { version = "1", features = ["derive"] }
serde_json = "1"
tokio = { version = "1", features = ["full"] }
uuid = { version = "1", features = ["v4"] }
