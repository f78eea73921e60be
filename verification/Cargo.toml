[package]
name = "streamvb"
version = "0.1.0"
edition = "2021"

[dependencies]
multiversion = "0.6"

[dev-dependencies]
rand = "0.8"
