[package]
name = "rope"
version = "0.1.0"
edition = "2021"
publish = false

[dependencies]
anyhow = "=1.0.104"
serde = "=1.0.229"
tokio = "=1.54.1"
turbo-tasks-hash = "=0.1.0"
twox-hash = "=1.6.3"
