[package]
name = "memex-core"
version = "0.1.0"
edition = "2021"
publish = false

[dependencies]
uuid = { version = "=1.29.0", features = ["v4", "v7", "serde"] }
serde = { version = "=1.0.229", features = ["derive"] }
serde_json = "=1.0.154"
anyhow = "=1.0.104"
log = "=0.4.34"
env_logger = "=0.11.11"
async-fs = "=2.2.0"
futures-lite = "=2.6.1"
dirs = "=6.0.0"
async-channel = "=2.5.0"
async-io = "=2.6.0"
futures = "=0.3.34"
raw-window-handle = "=0.6.2"
cef = "=156.0.0"
objc2 = "=0.6.5"
objc2-app-kit = "=0.3.2"
