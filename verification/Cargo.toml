[package]
name = "reamp"
version = "0.1.0"
edition = "2021"
publish = false

[dependencies]
font8x8 = "*"
rodio = "*"
minifb = "*"
image = "*"
rfd = "*"
spectrum-analyzer = "*"
