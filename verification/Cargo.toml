[package]
name = "ocean_nav"
version = "0.1.0"
edition = "2021"
publish = false

[dependencies]
bevy = { version = "0.8", default-features = false, features = ["bevy_asset", "bevy_gltf", "bevy_scene", "bevy_winit", "png", "render", "x11"] }
bevy_egui = { version = "0.15", default-features = false }
rand = "0.8"
