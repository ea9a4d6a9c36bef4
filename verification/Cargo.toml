[package]
name = "fireworks"
version = "0.1.0"
edition = "2021"
publish = false

[dependencies]
bevy = { version = "0.9.1", default-features = false, features = ["bevy_winit", "bevy_render", "bevy_core_pipeline", "bevy_sprite", "x11"] }
rand = "=0.8.8"
