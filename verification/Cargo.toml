[package]
name = "stream_extra"
version = "0.1.0"
edition = "2021"

[dependencies]
futures = "*"
pin-project = "*"
