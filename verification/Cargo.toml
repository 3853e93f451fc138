[package]
name = "device_manager"
version = "0.2.0"
edition = "2021"
publish = false

[dependencies]
array_tool = "1"
bytes = "0.4"
chrono = "0.4"
clap = "2"
evmap = "4"
failure = "0.1"
fern = { version = "0.5", features = ["colored"] }
futures = "0.1"
get_if_addrs = "0.5"
log = "0.4"
serde = { version = "1", features = ["derive"] }
serde_json = "1"
tokio = "0.1"
tokio-io = "0.1"
tokio-serde-json = "*"
uuid = { version = "0.7", features = ["v4", "serde"] }
walkdir = "2"
