[package]
name = "chip8"
version = "0.1.0"
edition = "2021"
publish = false

[dependencies]
anyhow = "1"
minifb = "*"
rand = "0.8"
tracing = "0.1"
tracing-subscriber = "0.3"
