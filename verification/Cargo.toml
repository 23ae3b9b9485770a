[package]
name = "ip"
version = "0.1.0"
edition = "2021"
publish = false

[dependencies]
async-trait = "0.1"
env_logger = "0.9"
etherparse = "0.12"
log = "0.4"
rand = "0.8"
tokio = { version = "1", features = ["full"] }
