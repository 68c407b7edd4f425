[package]
name = "magnet_link"
version = "0.1.0"
edition = "2021"
publish = false

[dependencies]
regex = "1"
url = "1.7"
