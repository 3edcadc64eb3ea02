[package]
name = "chip8"
version = "0.1.0"
edition = "2021"
publish = false

[dependencies]
rand = "0.8"
log = "0.4"
env_logger = { version = "0.11", default-features = false }
clap = { version = "2", default-features = false }
app_dirs = "1"
error-chain = { version = "0.12", default-features = false }
piston_window = "*"
ears = "*"
