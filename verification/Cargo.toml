[package]
name = "cache_broker"
version = "0.1.0"
edition = "2021"
publish = false

[dependencies]
async-stream = "=0.3.6"
axum = "=0.6.20"
axum-prometheus = "=0.4.0"
base64 = "=0.21.7"
bytes = "=1.12.1"
chrono = "=0.4.45"
futures = "=0.3.34"
futures-core = "=0.3.34"
minio-rsc = { version = "=0.2.6", default-features = false }
moka = { version = "=0.12.16", features = ["future", "sync"] }
once_cell = "=1.21.4"
reqwest = { version = "=0.11.27", default-features = false, features = ["json", "multipart", "stream"] }
serde = { version = "=1.0.229", features = ["derive"] }
serde_json = "=1.0.154"
sqlx = { version = "=0.7.4", default-features = false, features = ["postgres", "runtime-tokio"] }
# teloxide-core pulls takecell in; its 0.1.2 asks for a newer compiler than 1.95
takecell = "=0.1.1"
teloxide = { version = "=0.12.2", default-features = false }
tempfile = "=3.27.0"
tokio = { version = "=1.54.1", features = ["rt-multi-thread", "macros"] }
tokio-util = { version = "=0.7.20", features = ["compat", "io"] }
tower-http = { version = "=0.4.4", features = ["trace"] }
tracing = { version = "=0.1.44", features = ["log"] }
