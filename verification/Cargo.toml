[package]
name = "krust"
version = "0.1.0"
edition = "2021"
publish = false

[dependencies]
anyhow = "*"
base64 = "*"
chrono = "*"
clap = { version = "*", features = ["derive", "env"] }
dirs = "*"
flate2 = "*"
reqwest = { version = "*", default-features = false, features = ["json", "rustls-tls"] }
serde = { version = "*", features = ["derive"] }
serde_json = "*"
sha256 = { version = "*", default-features = false }
tar = "*"
tempfile = "*"
tokio = { version = "*", features = ["rt", "rt-multi-thread", "macros"] }
toml = "*"
tracing = "*"
tracing-subscriber = { version = "*", features = ["env-filter"] }
which = "*"
yaml-rust2 = "*"
