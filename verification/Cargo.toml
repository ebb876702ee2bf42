[package]
name = "gbemu"
version = "0.1.0"
edition = "2021"
publish = false

[dependencies]
crc = "1.8"
sdl2 = "0.35"
env_logger = "0.10"
log = "0.4"
