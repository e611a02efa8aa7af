[package]
name = "docstore"
version = "0.1.0"
edition = "2021"
publish = false

[dependencies]
axum = "*"
tokio = { version = "*", features = ["rt-multi-thread", "macros", "net", "sync"] }
tower-http = { version = "*", features = ["trace", "compression-gzip", "cors", "propagate-header", "sensitive-headers"] }
tracing = "*"
tracing-subscriber = { version = "*", features = ["env-filter"] }
serde = { version = "*", features = ["derive"] }
serde_json = "*"
chrono = "*"
config = "*"
once_cell = "*"
