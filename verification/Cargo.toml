[package]
name = "oxideplot"
version = "0.1.0"
edition = "2021"
publish = false

[dependencies]
chrono = { version = "=0.4.45", default-features = false, features = ["std"] }
csv = "=1.4.0"
calamine = "=0.37.0"
glam = "=0.34.1"
kiddo = { version = "=5.3.3", default-features = false }
bytemuck = { version = "=1.25.2", features = ["derive"] }
serde = { version = "=1.0.229", features = ["derive"] }
serde_json = "=1.0.154"
tracing = { version = "=0.1.44", default-features = false, features = ["std"] }
tracing-subscriber = { version = "=0.3.23", default-features = false, features = ["fmt"] }
eframe = { version = "=0.31.1", default-features = false, features = ["wgpu", "default_fonts", "x11"] }
egui = "=0.31.1"
egui_extras = { version = "=0.31.1", default-features = false }
arboard = "=3.7.0"
image = { version = "=0.25.10", default-features = false, features = ["png"] }
rfd = { version = "0.15", default-features = false, features = ["xdg-portal", "tokio"] }
