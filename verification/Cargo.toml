[package]
name = "shelfd"
version = "0.1.0"
edition = "2021"
publish = false

[dependencies]
anyhow = "1"
axum = "0.8"
chrono = { version = "0.4", default-features = false, features = ["clock", "std"] }
clap = { version = "4", features = ["derive", "env"] }
dashmap = "6"
futures = "0.3"
quick-xml = "*"
rand = "*"
reqwest = { version = "0.12", default-features = false, features = ["json", "rustls-tls"] }
resvg = "*"
scraper = "*"
serde = { version = "1", features = ["derive"] }
serde_json = "1"
sqlx = { version = "0.8", default-features = false, features = ["sqlite", "runtime-tokio"] }
tiny-skia = "*"
tokio = { version = "1", features = ["full"] }
toml = "*"
tower-http = { version = "0.6", features = ["trace"] }
tracing = "0.1"
tracing-subscriber = { version = "0.3", features = ["env-filter"] }
urlencoding = "2"
