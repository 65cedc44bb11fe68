[package]
name = "monitor_core"
version = "0.1.0"
edition = "2021"
publish = false

[dependencies]
async-stream = "=0.3.6"
axum = "=0.8.9"
chrono = { version = "=0.4.45", default-features = false, features = ["std", "now"] }
dotenvy = "=0.15.7"
fastembed = { version = "=5.17.4", default-features = false, features = ["hf-hub-native-tls", "ort-load-dynamic"] }
futures = "=0.3.34"
hostname = "=0.4.2"
lettre = "=0.11.23"
nvml-wrapper = "=0.11.0"
pgvector = { version = "=0.4.2", features = ["sqlx"] }
reqwest = { version = "=0.12.28", default-features = false, features = ["json", "default-tls"] }
serde = { version = "=1.0.229", features = ["derive"] }
serde_json = "=1.0.154"
sqlx = { version = "=0.9.0", default-features = false, features = ["runtime-tokio", "postgres", "migrate"] }
sysinfo = { version = "=0.35.2", default-features = false, features = ["system", "disk", "network"] }
tera = { version = "=1.20.1", default-features = false }
tokio = { version = "=1.54.1", features = ["rt-multi-thread", "macros", "sync", "time", "net"] }
tower-http = { version = "=0.6.11", features = ["fs"] }
