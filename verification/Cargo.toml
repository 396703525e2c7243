[package]
name = "isomidi"
version = "0.1.0"
edition = "2021"
publish = false

[dependencies]
sdl2 = { version = "0.29", features = ["gfx", "ttf"] }
midir = "0.5"
