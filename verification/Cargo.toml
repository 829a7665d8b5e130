[package]
name = "mousekeys"
version = "0.1.0"
edition = "2021"
publish = false

[dependencies]
anyhow = "1"
evdev = "0.13"
signal-hook = "0.3"
