[package]
name = "karasync"
version = "0.1.0"
edition = "2021"
publish = false

[dependencies]
serde = { version = "1", features = ["derive"] }
serde_json = "1"
tokio = { version = "1", features = ["full"] }
ssh2 = "0.9"
log = "0.4"
fern = { version = "0.6", features = ["colored"] }
lazy_static = "1"
