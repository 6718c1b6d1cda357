[package]
name = "ecosim"
version = "0.1.0"
edition = "2021"
publish = false

[dependencies]
rand = "0.8"
stackblur-iter = "0.2"
nalgebra = "0.32"
image = "0.24"
noise = "0.8"
rayon = "1"
