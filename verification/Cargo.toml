[package]
name = "rtmpsvrsrc"
version = "0.1.0"
edition = "2021"
publish = false

[dependencies]
rml_rtmp = "*"

[dev-dependencies]
bytes = "*"
