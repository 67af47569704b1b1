[package]
name = "npc_physics"
version = "0.1.0"
edition = "2021"
publish = false
rust-version = "1.95"

[dependencies]
bytemuck = { version = "=1.25.2", features = ["derive"] }
gltf = "=1.4.1"
bevy = { version = "=0.18.1", default-features = false, features = ["bevy_render", "bevy_pbr", "bevy_core_pipeline", "bevy_asset", "bevy_window"] }
