[package]
name = "nanogeoip"
version = "0.1.0"
edition = "2021"
publish = false

[dependencies]
httpdate = "1"
byteorder = "1"
