[package]
name = "callbacks"
version = "0.1.0"
edition = "2021"
publish = false

[dependencies]
bevy_app = "0.16"
bevy_ecs = "0.16"
