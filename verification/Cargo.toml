[package]
name = "nanopass"
version = "0.1.0"
edition = "2021"
publish = false

[dependencies]
aes = "=0.8.4"
heapless = "=0.8.0"
