[package]
name = "sampleur"
version = "0.1.0"
edition = "2021"
publish = false

[dependencies]
anyhow = "1"
log = "0.4"
env_logger = "0.11"
serde = { version = "1", features = ["derive"] }
serde_json = "1"
midir = "0.10"
cpal = "0.15"
symphonia = "0.5"
rubato = "0.15"
tokio = { version = "1", default-features = false, features = ["rt-multi-thread", "time", "macros"] }
