[package]
name = "krakenusb"
version = "0.1.0"
edition = "2021"
publish = false

[dependencies]
clap = { version = "*", features = ["derive"] }
env_logger = "*"
hidapi = "*"
lm-sensors = "*"
log = "*"
serde = { version = "*", features = ["derive"] }
toml = "*"
