[package]
name = "protocol"
version = "0.1.0"
edition = "2021"
publish = false

[dependencies]
rand = "0.8"
rsa = "0.5"
aes = "0.7"
block-modes = "0.8"
iced = "0.3"
iced_native = "0.4"
image = "0.23"
