[package]
name = "chirp8"
version = "0.1.0"
edition = "2021"
publish = false

[dependencies]
clap = { version = "4", features = ["derive"] }
color-eyre = "0.6"
rand = "0.9"
rodio = { version = "0.20", default-features = false }
sdl2 = "0.37"
