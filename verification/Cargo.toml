[package]
name = "outpost_config"
version = "0.1.0"
edition = "2021"
publish = false

[dependencies]
serde = "1"
serde_json = "1"
thiserror = "1"
