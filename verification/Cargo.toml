[package]
name = "waypoint_editor"
version = "0.1.0"
edition = "2021"
publish = false

[dependencies]
bevy = { version = "=0.6.1", default-features = false, features = ["render", "bevy_winit", "x11"] }
bevy_prototype_lyon = "=0.4.0"
message-io = { version = "=0.14.8", default-features = false, features = ["tcp"] }
serde = { version = "=1.0.229", features = ["derive"] }
serde_json = "=1.0.154"
pin-project-internal = "=1.0.12"
uom = "=0.31.1"
