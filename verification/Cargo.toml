[package]
name = "goose"
version = "0.1.0"
edition = "2021"
publish = false

[dependencies]
anyhow = "1"
async-trait = "0.1"
axum = "0.8"
base64 = "0.22"
chrono = { version = "0.4", default-features = false, features = ["clock", "serde"] }
etcetera = "0.8"
futures = "0.3"
lazy_static = "1"
nanoid = "0.4"
once_cell = "1"
reqwest = { version = "0.12", default-features = false, features = ["json", "rustls-tls"] }
serde = { version = "1", features = ["derive"] }
serde_json = "1"
serde_urlencoded = "0.7"
sha2 = "0.10"
shellexpand = "3"
tokio = { version = "1", default-features = false, features = ["macros", "net", "process", "rt-multi-thread", "signal", "sync", "time"] }
tracing-appender = "0.2"
tracing-subscriber = { version = "0.3", features = ["json", "env-filter"] }
url = "2"
webbrowser = "0.8"
