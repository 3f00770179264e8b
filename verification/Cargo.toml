[package]
name = "dynamic_hls"
version = "0.1.0"
edition = "2021"
publish = false

[dependencies]
mpeg2ts = "=0.3.1"
mp4 = "=0.14.0"
bytes = "=1.12.1"
axum = { version = "0.7", features = ["macros"] }
axum-prometheus = "0.7.0"
tokio = { version = "1", features = ["full"] }
tower-http = { version = "0.5", features = ["compression-gzip", "cors", "propagate-header", "sensitive-headers", "trace"] }
serde = { version = "1", features = ["derive"] }
serde_json = "1"
thiserror = "1"
tracing = "0.1"
tracing-subscriber = { version = "0.3", features = ["env-filter"] }
lazy_static = "1"
