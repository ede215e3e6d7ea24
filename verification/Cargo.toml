[package]
name = "referee"
version = "0.1.0"
edition = "2021"
publish = false

[dependencies]
timeout-readwrite = "*"
