[package]
name = "emblinkenator"
version = "0.1.0"
edition = "2021"
publish = false

[dependencies]
bytemuck = "*"
crossbeam = "*"
env_logger = "*"
glob = "*"
log = "*"
parking_lot = "*"
pollster = "*"
rand = "*"
rumqttc = "*"
serde = { version = "*", features = ["derive"] }
serde_json = "*"
tokio = { version = "*", features = ["sync", "time", "rt", "rt-multi-thread", "macros"] }
wgpu = "*"
