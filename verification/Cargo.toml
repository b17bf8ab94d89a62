[package]
name = "lifx"
version = "0.1.0"
edition = "2021"
publish = false

[dependencies]
byteorder = "1"
log = "0.4"
net2 = "0.2"
rustc-serialize = "0.3"
