[package]
name = "rs_nats_lib"
version = "0.1.0"
edition = "2021"
publish = false

[dependencies]
whoami = "*"
async-nats = "*"
tokio = { version = "*", features = ["full"] }
futures-util = "*"
clap = { version = "*", features = ["derive"] }
anyhow = "*"
env_logger = "*"
log = "*"
