[package]
name = "kaffeesahne"
version = "0.1.0"
edition = "2021"
publish = false

[dependencies]
nalgebra = "*"
glium = "*"
tobj = "*"
image = { version = "*", default-features = false, features = ["png"] }
