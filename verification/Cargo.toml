[package]
name = "milli"
version = "0.1.0"
edition = "2021"
publish = false

[dependencies]
arroy = "0.6"
heed = "*"
