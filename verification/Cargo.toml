[package]
name = "game_utils"
version = "0.1.0"
edition = "2021"
publish = false

[dependencies]
bevy = { version = "=0.19.1", default-features = false, features = ["std", "bevy_state", "keyboard"] }
rand = "=0.9.5"
unsynn = "=0.3.0"
