[package]
name = "wildlife_sim"
version = "0.1.0"
edition = "2021"
publish = false

[dependencies]
rand = "=0.9.5"
bevy = { version = "0.15", default-features = false, features = ["bevy_asset", "bevy_scene", "bevy_pbr", "bevy_gltf", "bevy_animation", "bevy_picking", "bevy_mesh_picking_backend", "bevy_window", "multi_threaded"] }
avian3d = "0.2"
vleue_navigator = { version = "0.11", features = ["avian3d"] }
bevy_rts_camera = "0.9"
