[package]
name = "pdfiron"
version = "0.1.0"
edition = "2021"
publish = false

[dependencies]
shellexpand = "*"
num_cpus = "*"
clap = "*"
env_logger = "*"
log = "*"
tempfile = "*"
