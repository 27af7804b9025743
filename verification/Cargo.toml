[package]
name = "befunge93-rs"
version = "0.1.0"
edition = "2021"
publish = false

[dependencies]
anyhow = "=1.0.104"
eframe = { version = "=0.28.1", default-features = false, features = ["default_fonts", "glow"] }
egui = "=0.28.1"
env_logger = "=0.11.11"
log = "=0.4.34"
rand = "=0.8.8"
thiserror = "=1.0.69"
wasm-bindgen-futures = "=0.4.79"
web-sys = { version = "=0.3.106", features = ["Document", "Element", "Window"] }
