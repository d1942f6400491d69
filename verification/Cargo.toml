[package]
name = "airplay"
version = "0.1.0"
edition = "2021"
publish = false

[dependencies]
tokio = { version = "1", features = ["full"] }
plist = "1"
serde = { version = "1", features = ["derive"] }
futures-util = "0.3"
mdns = "*"
