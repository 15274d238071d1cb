[package]
name = "rigid2d"
version = "0.1.0"
edition = "2021"
publish = false

[dependencies]
nalgebra = "0.32"
ordered-float = "4"
rand = "0.8"
piston = "*"
piston2d-graphics = "*"
pistoncore-glutin_window = "*"
piston2d-opengl_graphics = "*"
