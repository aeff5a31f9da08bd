[package]
name = "aac_trim"
version = "0.1.0"
edition = "2021"
publish = false

[dependencies]
fdk-aac = "*"
mp4 = "*"
subprocess = "*"
