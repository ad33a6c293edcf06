[package]
name = "heartbeats"
version = "0.1.0"
edition = "2021"
publish = false

[dependencies]
chrono = "*"
axum = { version = "*", features = ["ws"] }
tokio = { version = "*", features = ["rt-multi-thread", "macros", "time", "net", "sync"] }
serde = { version = "*", features = ["derive"] }
serde_json = "*"
sqlx = { version = "*", default-features = false, features = ["postgres", "runtime-tokio", "chrono"] }
reqwest = { version = "*", default-features = false, features = ["json"] }
