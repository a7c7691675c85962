[package]
name = "lvm"
version = "0.1.0"
edition = "2021"
publish = false

[dependencies]
errno = "*"
uuid = "*"
lvm-sys = "*"
