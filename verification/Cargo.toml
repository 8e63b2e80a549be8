[package]
name = "renderware"
version = "0.1.0"
edition = "2021"
publish = false

[dependencies]
squish = "*"
texture_packer = "*"
image = { version = "*", default-features = false, features = ["png"] }
