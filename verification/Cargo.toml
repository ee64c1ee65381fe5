[package]
name = "game_of_life"
version = "0.1.0"
edition = "2021"
publish = false

[dependencies]
rand = "0.8"
hecs = "0.10"
bevy = { version = "0.12", default-features = false }
