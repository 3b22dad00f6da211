[package]
name = "sponge"
version = "0.1.0"
edition = "2021"
publish = false

[dependencies]
cgmath = "0.16"
glium = "0.25"
glutin = "0.21"
image = { version = "0.18", default-features = false }
rayon = "1"
