[package]
name = "orion"
version = "0.1.0"
edition = "2021"
publish = false

[dependencies]
arc-swap = "1"
cpal = "*"
crossbeam-channel = "0.5"
directories = "*"
env_logger = "0.11"
log = "0.4"
notify = "*"
rtrb = "0.3"
schemars = "*"
serde = { version = "1", features = ["derive"] }
serde_json = "1"
thiserror = "2"
uuid = { version = "1", features = ["v4", "v5", "serde"] }
