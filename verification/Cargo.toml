[package]
name = "auto_dungeon"
version = "0.1.0"
edition = "2021"
publish = false

[dependencies]
noise = "0.8"
rand = "0.8"
clap = { version = "3", features = ["derive"] }
sdl2 = { version = "0.35", features = ["image", "gfx"] }
glium = "0.32"
image = "0.24"
