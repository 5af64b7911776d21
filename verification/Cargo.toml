[package]
name = "chip8"
version = "0.1.0"
edition = "2021"
publish = false

[dependencies]
frand = "*"
clap = { version = "4", features = ["derive"] }
rodio = { version = "0.20", default-features = false }
sdl2 = "0.37"
thiserror = "1"
