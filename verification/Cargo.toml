[package]
name = "spectra"
version = "0.1.0"
edition = "2021"
publish = false

[dependencies]
ringbuf = "0.4"
rustfft = "*"
itertools = "*"
rodio = "*"
glium = "*"
