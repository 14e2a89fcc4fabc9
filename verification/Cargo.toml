[package]
name = "personal_os"
version = "0.1.0"
edition = "2021"
publish = false

[dependencies]
serde = { version = "=1.0.229", features = ["derive"] }
serde_json = { version = "=1.0.154", features = ["raw_value"] }
uuid = { version = "=1.29.0", features = ["v4", "serde"] }
chrono = { version = "=0.4.45", default-features = false, features = ["std", "serde"] }
urlencoding = "=2.1.3"
scraper = { version = "=0.29.0", default-features = false }
axum = "=0.8.9"
axum-extra = { version = "0.10", features = ["cookie"] }
tokio = { version = "=1.54.1", features = ["rt-multi-thread", "macros", "net", "sync", "time"] }
sqlx = { version = "=0.8.6", default-features = false, features = ["runtime-tokio", "sqlite", "uuid", "chrono"] }
reqwest = { version = "=0.12.28", default-features = false, features = ["json"] }
tower-http = { version = "=0.6.11", features = ["fs"] }
tracing = "=0.1.44"
tracing-subscriber = { version = "0.3", features = ["env-filter"] }
anyhow = "1"
thiserror = "=2.0.21"
dotenvy = "=0.15.7"
time = "0.3"
sha2 = "=0.10.9"
