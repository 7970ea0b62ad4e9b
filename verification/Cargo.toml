[package]
name = "shiftbot"
version = "0.1.0"
edition = "2021"
publish = false

[dependencies]
rand = "=0.8.8"
twitchchat = { version = "=0.14.8", features = ["async", "tokio", "tokio-util"] }
tokio = { version = "=0.2.25", features = ["full"] }
webhook = "=1.0.1"
env_logger = "=0.11.11"
log = "=0.4.35"
regex = "=1.13.1"
