[package]
name = "stele"
version = "0.1.0"
edition = "2021"
publish = false

[dependencies]
regex = "1"
ulid = "1"
chrono = "0.4"
rand = "0.8"
base64 = "0.22"
hostname = "0.4"
gethostname = "0.5"
serde = { version = "1", features = ["derive"] }
serde_json = "1"
toml = "0.8"
clap = { version = "4", features = ["derive", "env"] }
dirs = "5"
ureq = { version = "2", features = ["json"] }
axum = "0.8"
tokio = { version = "1", features = ["full"] }
tokio-util = "0.7"
tower = "0.5"
tower-http = { version = "0.6", features = ["cors"] }
tracing = "0.1"
tracing-subscriber = { version = "0.3", features = ["env-filter"] }
rusqlite = "0.32"
rmcp = { version = "*", features = ["server", "macros", "transport-streamable-http-server"] }
schemars = "*"
