[package]
name = "punt"
version = "0.1.0"
edition = "2021"
publish = false

[dependencies]
crc-any = "2"
rusb = "0.9"
