[package]
name = "simulation"
version = "0.1.0"
edition = "2021"
publish = false

[dependencies]
bevy = { version = "=0.16.1", default-features = false, features = ["bevy_state"] }
bevy_ecs_tilemap = "=0.16.0"
rand = "=0.9.5"
serde = { version = "=1.0.229", features = ["derive"] }
