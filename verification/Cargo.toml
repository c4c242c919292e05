[package]
name = "screenshot"
version = "0.1.0"
edition = "2021"
publish = false

[dependencies]
image = "=0.25.10"
