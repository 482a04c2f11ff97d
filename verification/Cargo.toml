[package]
name = "persistent_workspaces"
version = "0.1.0"
edition = "2021"
publish = false

[dependencies]
flate2 = "1"
uuid = { version = "1", features = ["v4"] }
chrono = "0.4"
rand = "0.8"
serde = { version = "1", features = ["derive"] }
serde_json = "1"
tempfile = "3"
dirs = "*"
libc = "0.2"
parking_lot = "0.12"
async-channel = "2"
async-io = "2"
async-process = "2"
futures-lite = "2"
