[package]
name = "diarize"
version = "0.1.0"
edition = "2021"
publish = false

[dependencies]
anyhow = "*"
clap = { version = "*", features = ["derive"] }
cpal = "*"
env_logger = "*"
futures-util = "*"
log = "*"
ort = "=2.0.0-rc.13"
reqwest = { version = "*", default-features = false, features = ["stream"] }
tokio = { version = "*", features = ["macros", "rt-multi-thread", "sync", "fs", "io-util"] }
