[package]
name = "bang"
version = "0.1.0"
edition = "2021"
publish = false

[dependencies]
rand = "0.8"
rust-crypto = "0.2"
base16 = "0.2"
base64 = "0.22"
tiny_http = "0.12"
local-ip-address = "*"
getch-rs = "*"
