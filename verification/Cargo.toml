[package]
name = "jbcrs"
version = "0.1.0"
edition = "2021"
publish = false

[dependencies]
byteorder = "1"
bitflags = "1"
yade = "*"
