[package]
name = "ai_bridge"
version = "0.1.0"
edition = "2021"
publish = false

[dependencies]
regex = "=1.13.1"
serde = { version = "=1.0.229", features = ["derive"] }
serde_json = "=1.0.154"
toml = "=0.8.23"
shlex = "=1.3.0"
getrandom = "=0.2.17"
hex = "=0.4.3"
nix = { version = "=0.29.0", features = ["user", "socket"] }
chrono = "=0.4.45"
tokio = { version = "=1.54.1", features = ["full"] }
anyhow = "=1.0.104"
thiserror = "=1.0.69"
rusqlite = { version = "=0.31.0", features = ["bundled"] }
arboard = "=3.7.0"
ashpd = { version = "=0.13.13", features = ["remote_desktop", "screencast"] }

[dev-dependencies]
tempfile = "=3.27.0"
