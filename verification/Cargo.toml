[package]
name = "syncstream"
version = "0.1.0"
edition = "2021"
publish = false

[dependencies]
asky = "*"
rodio = "0.20"
sntpc = "0.3"
