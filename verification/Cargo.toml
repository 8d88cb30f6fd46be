[package]
name = "kprf"
version = "0.1.0"
edition = "2021"
publish = false

[dependencies]
chrono = "0.4"
clap = "2"
lazy_static = "1"
prometheus = "0.13"
r2d2 = "0.8"
rdkafka = "*"
serde = { version = "1", features = ["derive"] }
serde_json = "1"
slog = "2"
slog-async = "2"
slog-json = "2"
tokio = { version = "1", features = ["full"] }
uuid = { version = "1", features = ["v4", "serde"] }
warp = "0.3"
yaml-rust = "0.4"
