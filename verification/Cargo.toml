[package]
name = "blog"
version = "0.1.0"
edition = "2021"
publish = false

[dependencies]
ammonia = "4"
askama = "*"
axum = "0.8"
chrono = { version = "0.4", features = ["serde"] }
pulldown-cmark = "*"
serde = { version = "1", features = ["derive"] }
serde_yaml_ng = "*"
syntect = { version = "5", default-features = false, features = ["default-fancy"] }
tokio = { version = "1", features = ["full"] }
tower-http = { version = "0.6", features = ["fs", "timeout", "trace", "compression-gzip"] }
tracing = "0.1"
tracing-subscriber = { version = "0.3", features = ["env-filter"] }
