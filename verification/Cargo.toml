[package]
name = "circle_scenes"
version = "0.1.0"
edition = "2021"
publish = false

[dependencies]
bevy = { version = "0.8", default-features = false, features = ["render", "bevy_asset"] }
num = "0.4"
palette = "0.6"
rand = "0.8"
