[package]
name = "kasumin"
version = "0.1.0"
edition = "2021"
publish = false

[dependencies]
serde = { version = "*", features = ["derive"] }
rmp-serde = "*"
tokio = { version = "*", features = ["full"] }
bytes = "*"
tracing = "*"
tracing-subscriber = "*"
thiserror = "*"
smallvec = "*"
sqlx = { version = "*", default-features = false, features = ["sqlite", "runtime-tokio"] }
