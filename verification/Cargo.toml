[package]
name = "polysynth"
version = "0.1.0"
edition = "2021"
publish = false

[dependencies]
cpal = "0.8"
device_query = "*"
ghakuf = "0.5"
rand = "0.5"
rand_derive = "0.5"
