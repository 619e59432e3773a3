[package]
name = "voice"
version = "0.1.0"
edition = "2021"
publish = false

[dependencies]
rand = "*"
time = "*"
sha256 = "*"
hex = "*"
tokio = { version = "*", features = ["full"] }
axum = { version = "*", features = ["ws"] }
serde = { version = "*", features = ["derive"] }
serde_json = "*"
toml = "*"
which = "*"
tempfile = "*"
tower-http = { version = "*", features = ["fs", "cors"] }
url = "*"
tracing = "*"
tracing-subscriber = { version = "*", features = ["env-filter"] }
tracing-appender = "*"
