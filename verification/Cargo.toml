[package]
name = "c0front"
version = "0.1.0"
edition = "2021"
publish = false

[dependencies]
indexmap = "*"
regex = "*"
ramp = "*"
once_cell = "*"
