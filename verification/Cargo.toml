[package]
name = "unm-sfx"
version = "0.1.0"
edition = "2021"
publish = false

[dependencies]
anyhow = "1"
ringbuf = "0.4"
symphonia = "0.5"
cpal = "*"
