[package]
name = "hier"
version = "0.1.0"
edition = "2021"
publish = false

[dependencies]
serde = { version = "1", features = ["derive"] }
serde_json = "1"
arboard = "*"
calloop = "*"
winit = "*"
wayland-server = "*"
smithay = { version = "*", default-features = false, features = ["wayland_frontend", "desktop", "backend_winit"] }
