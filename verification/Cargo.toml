[package]
name = "flag_checker"
version = "0.1.0"
edition = "2021"
publish = false

[dependencies]
chrono = "=0.4.45"
tokio = { version = "=1.53.2", features = ["rt", "rt-multi-thread", "sync", "macros", "net"] }
sea-orm = { version = "=2.0.4", default-features = false, features = ["macros", "with-json"] }
axum = "=0.8.9"
serde = { version = "*", features = ["derive"] }
serde_json = "*"
serde_repr = "*"
once_cell = "*"
tracing = "*"
validator = { version = "*", features = ["derive"] }
