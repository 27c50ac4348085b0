[package]
name = "stargazers"
version = "0.1.0"
edition = "2021"
publish = false

[dependencies]
common-game = "*"
rand = "0.8"
crossbeam-channel = "0.5"
log = "0.4"
env_logger = "0.11"
