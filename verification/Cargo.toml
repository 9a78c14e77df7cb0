[package]
name = "svarozhits"
version = "0.1.0"
edition = "2021"
publish = false

[dependencies]
axum = "0.5"
sqlx = { version = "0.6", default-features = false, features = ["runtime-tokio-rustls", "sqlite", "migrate"] }
tokio = { version = "1", features = ["full"] }
tower-http = { version = "0.3", features = ["catch-panic", "compression-full", "trace"] }
tracing = "0.1"
tracing-subscriber = "0.3"
