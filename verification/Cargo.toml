[package]
name = "api"
version = "0.1.0"
edition = "2021"
publish = false

[dependencies]
sha2 = "0.10"
hex = "0.4"
sanitize-filename = "0.6"
axum = "0.8"
tokio = { version = "1", features = ["full"] }
tokio-util = { version = "0.7", features = ["compat", "io"] }
futures = "0.3"
tracing = "0.1"
tracing-subscriber = { version = "0.3", features = ["chrono", "fmt", "registry"] }
tracing-appender = "0.2"
reqwest = { version = "0.12", default-features = false, features = ["json", "stream"] }
async_zip = { version = "0.0", features = ["tokio", "deflate"] }
tower-http = { version = "0.6", features = ["trace", "auth"] }
serde = { version = "1", features = ["derive"] }
dotenvy = "0.15"
clap = { version = "4", features = ["cargo"] }
anyhow = "1"
parking_lot = "0.12"
self-replace = "1"
