[package]
name = "rrush"
version = "0.1.0"
edition = "2021"
publish = false

[dependencies]
rand = "=0.9.5"

[dependencies.bevy]
version = "=0.18.1"
default-features = false
features = [
    "std",
    "async_executor",
    "bevy_asset",
    "bevy_window",
    "keyboard",
    "bevy_render",
    "bevy_core_pipeline",
    "bevy_pbr",
    "bevy_light",
    "bevy_camera",
    "bevy_mesh",
    "bevy_color",
    "bevy_image",
    "bevy_shader",
    "bevy_text",
    "default_font",
    "bevy_ui",
    "bevy_ui_render",
    "png",
]
