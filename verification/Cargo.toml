[package]
name = "firm_remote_mcp"
version = "0.1.0"
edition = "2021"
publish = false

[dependencies]
axum = "=0.8.9"
base64 = "=0.22.1"
dotenvy = "=0.15.7"
env_logger = "=0.11.11"
git2 = "=0.20.4"
jsonwebtoken = "=9.3.1"
log = "=0.4.35"
rand = "=0.9.5"
rmcp = { version = "=3.8.0", features = ["server", "macros", "transport-streamable-http-server"] }
serde = { version = "=1.0.229", features = ["derive"] }
serde_json = { version = "=1.0.154", features = ["preserve_order"] }
sha2 = "=0.10.9"
subtle = "=2.6.1"
tokio = { version = "=1.54.1", features = ["full"] }
tokio-util = "=0.7.20"
url = "=2.5.8"
