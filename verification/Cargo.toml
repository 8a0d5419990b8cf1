[package]
name = "imperium"
version = "0.1.0"
edition = "2021"
publish = false

[dependencies]
bevy = { version = "=0.18.1", default-features = false, features = ["std", "bevy_asset", "bevy_color", "bevy_core_pipeline", "bevy_log", "bevy_render", "bevy_sprite_render", "bevy_window", "bevy_winit", "x11"] }
bevy_remote = { version = "=0.18.1", default-features = false, features = ["http"] }
