[package]
name = "goldleaf_fs"
version = "0.1.0"
edition = "2021"
publish = false

[dependencies]
byteorder = "1"
log = "0.4"
env_logger = "*"
rusb = "*"
sysinfo = "*"
