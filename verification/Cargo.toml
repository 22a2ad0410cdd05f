[package]
name = "niri_core"
version = "0.1.0"
edition = "2021"
publish = false

[dependencies]
knuffel = "3.2"
miette = "5.10"
regex = "1"
smithay = { version = "*", default-features = false, features = ["backend_drm", "backend_egl", "desktop", "renderer_gl", "wayland_frontend"] }
