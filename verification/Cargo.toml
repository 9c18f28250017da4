[package]
name = "path_forge"
version = "2.0.0"
edition = "2021"
publish = false

[dependencies]
bytemuck = { version = "1", features = ["derive"] }
eframe = { version = "0.29", default-features = false, features = ["default_fonts", "glow", "x11"] }
egui = "0.29"
gif = "0.13"
image = { version = "0.25", default-features = false, features = ["bmp", "gif", "jpeg", "png", "webp"] }
pollster = "0.4"
rfd = { version = "0.15", default-features = false, features = ["async-std", "xdg-portal"] }
serde = { version = "1", features = ["derive"] }
serde_json = "1"
wgpu = "22"
