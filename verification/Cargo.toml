[package]
name = "voxtree"
version = "0.1.0"
edition = "2021"
publish = false

[dependencies]
gl = "0.14"
glutin = "0.28"
cgmath = "0.18"
ron = "0.8"
image = "0.24"
notify = "4"
