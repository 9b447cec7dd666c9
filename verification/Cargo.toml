[package]
name = "string_resonator"
version = "0.1.0"
edition = "2021"
publish = false

[dependencies]
simper-filter = "*"
