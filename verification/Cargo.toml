[package]
name = "rsaxi"
version = "0.1.0"
edition = "2021"
publish = false

[dependencies]
anyhow = "1"
clap = "4"
env_logger = "0.11"
geo = "0.28"
log = "0.4"
once_cell = "1"
phf = { version = "0.11", features = ["macros"] }
serialport = { version = "4", default-features = false }
svg = "0.17"
thiserror = "1"
