[package]
name = "neon_sim"
version = "0.1.0"
edition = "2021"
publish = false

[dependencies]
rand = "=0.7.3"
hecs = "=0.2.15"
nalgebra = "=0.29.0"
ncollide2d = "=0.32.0"
nphysics2d = "=0.24.0"
tiled = "=0.9.4"
image = "=0.23.14"
indexmap = "=1.9.3"
luminance = "=0.38.0"
luminance-derive = "=0.5.3"
glutin = "=0.21.2"
luminance-glutin = "=0.8.2"
