[package]
name = "linkport"
version = "0.2.1"
edition = "2021"
publish = false

[dependencies]
url = "2"
globset = "0.4"
regex = "1"
chrono = "0.4"
serde = { version = "1", features = ["derive"] }
serde_json = "1"
toml = "0.8"
thiserror = "1"
anyhow = "1"
clap = { version = "4", features = ["derive"] }
dirs = "5"
getrandom = "0.2"
ureq = "2"
axum = "0.7"
tokio = { version = "1", features = ["rt-multi-thread", "net", "sync", "macros", "time"] }
tower-http = { version = "0.5", features = ["cors"] }
