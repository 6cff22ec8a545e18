[package]
name = "axum_wayfind"
version = "0.1.0"
edition = "2021"
publish = false

[dependencies]
axum = { version = "0.8", default-features = false }
axum-core = "0.5"
http = "1"
percent-encoding = "2"
tower = { version = "0.5", default-features = false, features = ["util"] }
tower-layer = "0.3"
tower-service = "0.3"
wayfind = "*"
