[package]
name = "statekeeper"
version = "0.1.0"
edition = "2021"
publish = false

[dependencies]
argon2 = "*"
chrono = "*"
chrono-tz = "*"
sqlx = { version = "*", default-features = false, features = ["sqlite", "runtime-tokio"] }
tokio = { version = "*", features = ["rt-multi-thread", "macros", "sync", "fs", "io-util", "signal"] }
anyhow = "*"
serde = { version = "*", features = ["derive"] }
serde_json = "*"
toml = "*"
log = "*"
env_logger = "*"
clap = { version = "*", features = ["derive"] }
regex = "*"
