[package]
name = "trawnik"
version = "0.1.0"
edition = "2021"
publish = false

[dependencies]
rand = "0.8"

[dependencies.bevy]
version = "0.17"
default-features = false
features = ["std", "bevy_asset", "bevy_audio", "bevy_state", "bevy_window", "bevy_render", "bevy_core_pipeline", "bevy_sprite", "bevy_text", "bevy_ui", "default_font", "png"]
