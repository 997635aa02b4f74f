[package]
name = "strip_tiler"
version = "0.1.0"
edition = "2021"
publish = false

[dependencies]
dither = "=1.0.5"
escposify = "=0.4.1"
failure = "=0.1.8"
image = "=0.23.14"
