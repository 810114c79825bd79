[package]
name = "screencast"
version = "0.1.0"
edition = "2021"
publish = false

[dependencies]
anyhow = "1"
atty = "0.2"
axum = "0.6"
chrono = "0.4"
clap = { version = "4", features = ["derive", "env"] }
color-eyre = "0.6"
dirs = "5"
futures = "0.3"
nix = { version = "0.27", features = ["signal", "process"] }
num-format = "0.4"
serde = { version = "1", features = ["derive"] }
thiserror = "1"
tokio = { version = "1", features = ["full"] }
tower-http = { version = "0.4", features = ["cors", "fs", "limit", "trace"] }
tracing = "0.1"
tracing-error = "0.2"
tracing-subscriber = { version = "0.3", features = ["env-filter"] }
