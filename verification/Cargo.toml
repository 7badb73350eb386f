[package]
name = "titlis"
version = "0.1.0"
edition = "2021"
publish = false

[dependencies]
rand = "0.8"
softbuffer = "0.4"
tiny-skia = "0.11"
winit = "0.29"
