[package]
name = "system_bridge"
version = "0.1.0"
edition = "2021"
publish = false

[dependencies]
anyhow = "1"
async-channel = "2"
bevy = { version = "0.14", default-features = false }
futures-util = "0.3"
