[package]
name = "nuclaw"
version = "0.1.0"
edition = "2021"
publish = false

[dependencies]
chrono = "*"
cron = "*"
serde_json = "*"
serde = { version = "*", features = ["derive"] }
tokio = { version = "*", features = ["full"] }
axum = "*"
reqwest = { version = "*", default-features = false, features = ["json", "rustls-tls"] }
rusqlite = "*"
r2d2 = "*"
r2d2_sqlite = { version = "*", features = ["bundled"] }
thiserror = "*"
structopt = "*"
log = "*"
env_logger = "*"
tracing = "*"
tracing-subscriber = "*"
home = "*"
