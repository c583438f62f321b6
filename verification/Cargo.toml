[package]
name = "map_reduce"
version = "0.1.0"
edition = "2021"
publish = false

[dependencies]
anyhow = "1"
clap = { version = "3", features = ["derive"] }
env_logger = "0.9"
http = "0.2"
log = "0.4"
prost = "0.10"
tokio = { version = "1", features = ["full"] }
tonic = "0.7"
