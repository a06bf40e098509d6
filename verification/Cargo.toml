[package]
name = "json_bucket"
version = "0.1.0"
edition = "2021"
publish = false

[dependencies]
serde_json = "*"
chrono = "*"
axum = "*"
tokio = { version = "*", features = ["rt-multi-thread", "macros", "net"] }
mongodb = "*"
bson = "*"
futures = "*"
clap = { version = "*", features = ["env"] }
env_logger = "*"
log = "*"
tower-http = { version = "*", features = ["trace"] }
