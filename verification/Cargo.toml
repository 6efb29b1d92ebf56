[package]
name = "lumina"
version = "0.1.0"
edition = "2021"
publish = false

[dependencies]
md5 = "0.7"
mime_guess = "2"
url = "2"
serde = { version = "1", features = ["derive"] }
serde_json = "1"
toml = "0.8"
chrono = "0.4"
anyhow = "1"
tokio = { version = "1", features = ["full"] }
axum = { version = "0.8", features = ["multipart"] }
sqlx = { version = "0.8", default-features = false, features = ["sqlite", "runtime-tokio", "macros"] }
reqwest = { version = "0.12", default-features = false, features = ["json", "stream"] }
tracing = "0.1"
tracing-subscriber = { version = "0.3", features = ["env-filter"] }
tower-http = { version = "0.6", features = ["cors", "trace"] }
tokio-util = { version = "0.7", features = ["io"] }
futures = "0.3"
async-stream = "0.3"
async-trait = "0.1"
parking_lot = "0.12"
image = { version = "0.25", default-features = false, features = ["jpeg", "png"] }
sysinfo = { version = "0.37", default-features = false, features = ["system", "disk"] }
librqbit = { version = "9", default-features = false }
