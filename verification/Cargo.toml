[package]
name = "vec_x"
version = "0.1.0"
edition = "2021"
publish = false

[dependencies]
fxhash = "0.2"
indexmap = "2"
num = "0.4"
