[package]
name = "push"
version = "0.1.0"
edition = "2021"
publish = false

[dependencies]
anyhow = "1"
askama = "0.11"
log = "0.4"
serde_json = "1"
serde_yaml = "0.8"
thiserror = "1"
