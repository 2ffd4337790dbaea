[package]
name = "layer7waf"
version = "0.1.0"
edition = "2021"
publish = false

[dependencies]
anyhow = "1"
arc-swap = "1"
async-trait = "0.1"
axum = "0.8"
bytes = "1"
dashmap = "6"
glob = "0.3"
hex = "0.4"
hmac = "0.12"
http = "1"
ipnet = "2"
maxminddb = "0.24"
pingora-core = "0.4"
pingora-http = "0.4"
pingora-proxy = "0.4"
prometheus = "0.13"
rand = "0.8"
serde = { version = "1", features = ["derive"] }
serde_json = "1"
serde_yaml = "0.9"
sha2 = "0.10"
thiserror = "1"
tokio = { version = "1", features = ["rt-multi-thread", "net", "macros"] }
tower-http = { version = "0.6", features = ["fs", "cors"] }
tracing = "0.1"
tracing-subscriber = { version = "0.3", features = ["env-filter", "json"] }
