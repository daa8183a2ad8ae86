[package]
name = "oculus"
version = "0.1.1"
edition = "2021"
publish = false

[dependencies]
xxhash-rust = { version = "0.8", features = ["xxh64"] }
humantime = "2"
humantime-serde = "1"
cron = "*"
url = "2"
chrono = "0.4"
serde = { version = "1", features = ["derive"] }
serde_json = "1"
serde_yaml = "0.9"
serde_json_path = "*"
regex = "1"
tokio = { version = "1", features = ["full"] }
async-trait = "0.1"
axum = "0.8"
tower-http = { version = "0.6", features = ["cors", "trace", "fs"] }
sqlx = { version = "0.8", default-features = false, features = ["sqlite", "runtime-tokio"] }
reqwest = { version = "0.12", default-features = false, features = ["rustls-tls"] }
surge-ping = "*"
rand = "0.8"
tokio-cron-scheduler = "*"
uuid = { version = "1", features = ["v4"] }
clap = { version = "4", features = ["derive", "env"] }
tracing = "0.1"
tracing-subscriber = { version = "0.3", features = ["env-filter"] }
thiserror = "2"
