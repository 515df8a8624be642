[package]
name = "asteroid_vm"
version = "0.1.0"
edition = "2021"
publish = false

[dependencies]
regex = "1"
shared_arena = "*"
fnv = "*"
