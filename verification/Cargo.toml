[package]
name = "eonix"
version = "0.1.0"
edition = "2021"
publish = false

[dependencies]
xmas-elf = "=0.10.0"
align_ext = "=0.1.0"
smoltcp = "0.12"
