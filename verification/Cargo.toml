[package]
name = "tn3270"
version = "0.1.0"
edition = "2021"
publish = false

[dependencies]
libtelnet-rs = "*"
