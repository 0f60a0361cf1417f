[package]
name = "system_manager"
version = "0.1.0"
edition = "2021"
publish = false

[dependencies]
anyhow = "1"
sysinfo = "0.29"
serde = { version = "1", features = ["derive"] }
serde_json = "1"
actix-web = "4"
tokio = { version = "1", features = ["full"] }
tokio-util = { version = "0.7", features = ["codec"] }
futures = "0.3"
tracing = "0.1"
tracing-subscriber = "0.3"
rexpect = "0.5"
tempfile = "3"
derive_more = "0.99"
