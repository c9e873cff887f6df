[package]
name = "monkeyos"
version = "0.1.0"
edition = "2021"
publish = false

[dependencies]
bit_field = "=0.10.3"
log = "=0.4.35"
xmas-elf = "=0.10.0"
virtio-drivers = "*"
