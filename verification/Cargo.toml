[package]
name = "i3-valet"
version = "0.1.0"
edition = "2021"
publish = false

[dependencies]
anyhow = "1"
clap = { version = "4", features = ["derive"] }
env_logger = "*"
log = "0.4"
thiserror = "1"
tokio = { version = "1", features = ["rt", "macros"] }
tokio-i3ipc = "*"
tokio-stream = "0.1"
