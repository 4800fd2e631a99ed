[package]
name = "clickrtraining"
version = "0.1.0"
edition = "2021"
publish = false

[dependencies]
url-builder = "*"
actix-web = "*"
awc = "*"
clap = { version = "*", features = ["derive"] }
anyhow = "*"
env_logger = "*"
log = "*"
