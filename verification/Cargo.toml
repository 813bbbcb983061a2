[package]
name = "rsis"
version = "0.1.0"
edition = "2021"
publish = false

[dependencies]
rmp-serde = "*"
data-buffer = "*"
libc = "*"
rand = "*"
statrs = "*"
