[package]
name = "pong"
version = "0.1.0"
edition = "2021"
publish = false

[dependencies]
bevy = { version = "0.5", default-features = false, features = ["render", "bevy_wgpu", "bevy_winit", "x11"] }
bevy_webgl2 = "0.5"
wasm-bindgen = "0.2"
