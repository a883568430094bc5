[package]
name = "cavptool"
version = "0.1.0"
edition = "2021"
publish = false

[dependencies]
threadpool = "=1.8.1"

[dev-dependencies]
katwalk = "=0.0.2"
