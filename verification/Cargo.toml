[package]
name = "ironfish_miner"
version = "0.1.0"
edition = "2021"
publish = false

[dependencies]
base64 = "0.13"
blake3 = "1"
clap = { version = "3", features = ["derive"] }
crossbeam-channel = "0.5"
env_logger = "0.9"
futures = "0.3"
log = "0.4"
num256 = "*"
num-bigint = "0.4"
num_cpus = "1"
psrt = "*"
rand = "0.8"
serde = { version = "1", features = ["derive"] }
serde_json = "1"
sodalite = "0.4"
tokio = { version = "1", features = ["rt-multi-thread", "macros", "time", "sync"] }
