[package]
name = "improve"
version = "0.1.0"
edition = "2021"

[dependencies]
clap = "2.33"
itertools = "0.10"
num-traits = "0.2"
palette = "0.5"
rustfft = "3.0"
sdl2 = { version = "0.34", features = ["ttf"] }
termion = "1.5"
