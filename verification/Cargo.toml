[package]
name = "naqshsmit"
version = "0.1.0"
edition = "2021"
publish = false

[dependencies]
embedded-graphics = "0.8"
itertools = "0.12"
num-traits = "0.2"
rand = "0.8"
sdl2 = "0.35"
tinytga = "0.5"
