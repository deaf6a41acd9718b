[package]
name = "machine_core"
version = "0.1.0"
edition = "2021"
publish = false

[dependencies]
m68k = "*"
uefi = { version = "*", features = ["alloc"] }
