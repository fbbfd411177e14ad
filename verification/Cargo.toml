[package]
name = "omniroute"
version = "0.1.0"
edition = "2021"
publish = false

[dependencies]
rand = "=0.8.8"
hex = "=0.4.3"
url = "=2.5.8"
sysinfo = "0.33"
serde = { version = "=1.0.229", features = ["derive"] }
serde_json = "=1.0.154"
tokio = { version = "=1.54.1", features = ["rt-multi-thread", "macros", "process", "io-util", "time", "sync", "fs"] }
reqwest = { version = "0.12", default-features = false }
log = "=0.4.35"
env_logger = "=0.11.11"
anyhow = "=1.0.104"
dirs = "=7.0.0"
parking_lot = "=0.13.0"
once_cell = "=1.21.4"
