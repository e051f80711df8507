[package]
name = "dungmul"
version = "0.1.0"
edition = "2021"
publish = false

[dependencies]
sdl2 = { version = "0.35", features = ["image", "ttf"] }
rand = "0.7"
