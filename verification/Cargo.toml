[package]
name = "usm_core"
version = "0.1.0"
edition = "2021"
publish = false

[dependencies]
anyhow = "1"
axum = { version = "0.7", features = ["ws"] }
chrono = "0.4"
clap = { version = "4", features = ["derive"] }
dirs = "5"
serde = { version = "1", features = ["derive"] }
serde_json = "1"
sysinfo = "0.30"
tokio = { version = "1", features = ["sync", "rt-multi-thread", "macros", "net", "time"] }
toml = "0.8"
tower-http = { version = "0.5", features = ["cors"] }
