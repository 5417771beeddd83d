[package]
name = "capsule"
version = "0.1.0"
edition = "2021"
publish = false

[dependencies]
anstyle = "=1.0.14"
unicode-width = "=0.2.3"
regex-lite = "=0.1.9"
serde = { version = "=1.0.229", features = ["derive"] }
toml = "=0.8.23"
clap = { version = "=4.6.7", features = ["derive"] }
anyhow = "=1.0.104"
thiserror = "=2.0.21"
time = { version = "0.3", features = ["local-offset"] }
