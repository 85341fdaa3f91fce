[package]
name = "tiled_compose"
version = "0.1.0"
edition = "2021"
publish = false

[dependencies]
bevy = { version = "=0.15.3", default-features = false, features = ["bevy_asset", "bevy_core_pipeline", "bevy_render", "bevy_sprite"] }
bevy_ecs_tilemap = { version = "=0.15.0", default-features = false }
futures-lite = "=2.6.1"
thiserror = "=2.0.21"
tiled = { version = "=0.16.0", default-features = false, features = ["world"] }
