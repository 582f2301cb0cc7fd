[package]
name = "plughost"
version = "0.1.0"
edition = "2021"
publish = false

[dependencies]
serde = { version = "*", features = ["derive"] }
serde_json = "*"
libloading = "*"
libc = "*"
log = "*"
env_logger = "*"
num-bigint = "*"
num-traits = "*"
