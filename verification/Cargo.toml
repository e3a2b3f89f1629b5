[package]
name = "server_status"
version = "0.1.0"
edition = "2021"
publish = false

[dependencies]
anyhow = "=1.0.104"
axum = "=0.7.9"
chrono = "=0.4.45"
clap = { version = "=4.6.7", features = ["derive"] }
lazy_static = "=1.5.1"
log = "=0.4.35"
md5 = "=0.7.0"
minijinja = "=2.24.0"
once_cell = "=1.21.4"
pretty_env_logger = "=0.5.0"
prettytable-rs = { version = "=0.10.0", default-features = false }
prost = "=0.13.5"
rusqlite = { version = "=0.31.0", features = ["bundled"] }
serde = { version = "=1.0.229", features = ["derive"] }
serde_json = "=1.0.154"
sysinfo = "=0.30.13"
tokio = { version = "=1.54.1", features = ["full"] }
tokio-stream = "=0.1.19"
tonic = { version = "=0.12.3", features = ["tls"] }
tower-http = { version = "=0.5.2", features = ["cors"] }
unicode-width = "=0.1.14"
url = "=2.5.8"
