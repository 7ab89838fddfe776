[package]
name = "dyn_plug"
version = "0.1.0"
edition = "2021"
publish = false

[dependencies]
serde_json = "1"
libloading = "0.8"
clap = { version = "4", features = ["derive"] }
serde = { version = "1", features = ["derive"] }
serde_yaml = "0.9"
log = "0.4"
env_logger = "0.11"
