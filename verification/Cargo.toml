[package]
name = "window_registry"
version = "0.1.0"
edition = "2021"
publish = false

[dependencies]
conrod_core = "0.74"
conrod_glium = "0.74"
conrod_winit = "0.74"
find_folder = "0.3"
gilrs = "0.8"
glium = "0.28"
