[package]
name = "space_invaders"
version = "0.1.0"
edition = "2021"
publish = false

[dependencies]
bevy = { version = "=0.7.0", default-features = false, features = ["render", "bevy_winit", "png", "x11"] }
bevy_kira_audio = { version = "=0.9.0", features = ["wav"] }
darling = "=0.13.4"
rand = "=0.8.8"
