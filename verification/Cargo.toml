[package]
name = "vesc"
version = "0.1.0"
edition = "2021"
publish = false

[dependencies]
crc = "3"
thiserror = "*"
