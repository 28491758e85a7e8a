[package]
name = "mandelbrot"
version = "0.1.0"
edition = "2021"
publish = false

[dependencies]
bytemuck = "*"
libm = "*"
num-complex = "*"
num-traits = "*"
clap = "*"
image = "*"
indicatif = "*"
rayon = "*"
regex = "*"
