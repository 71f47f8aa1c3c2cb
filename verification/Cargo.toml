[package]
name = "roguelike"
version = "0.1.0"
edition = "2021"
publish = false

[dependencies]
bracket-random = "=0.8.7"
bracket-geometry = "=0.8.7"
bracket-algorithm-traits = "=0.8.7"
bracket-pathfinding = "=0.8.7"
bracket-noise = "=0.8.7"
itertools = "=0.10.5"
bevy = { version = "=0.7.0", default-features = false, features = ["bevy_winit", "x11"] }
bevy_ascii_terminal = "=0.9.1"
bevy_tiled_camera = "=0.3.1"
bevy-inspector-egui = { version = "0.11", default-features = false }
