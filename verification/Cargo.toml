[package]
name = "space_shooter"
version = "0.1.0"
edition = "2021"
publish = false

[dependencies]
bevy = { version = "=0.5.0", default-features = false, features = ["bevy_winit", "bevy_wgpu", "render", "png", "x11"] }
rand = "=0.8.8"
# bevy 0.5's derive macros use the full syntax tree of syn 1 without asking
# for it; this macro crate asks for it on their side of the build.
ndk-macro = "=0.2.0"
