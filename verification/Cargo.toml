[package]
name = "skyplane"
version = "0.1.0"
edition = "2021"
publish = false

[dependencies]
fastrand = "=2.5.0"
bevy = { version = "=0.18.1", default-features = false, features = ["std", "bevy_window", "bevy_image"] }
