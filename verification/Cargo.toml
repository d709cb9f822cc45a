[package]
name = "balloon_sim"
version = "0.1.0"
edition = "2021"
publish = false

[dependencies]
batbox = "*"
rand = "0.8"
