[package]
name = "chip8sys"
version = "0.1.0"
edition = "2021"
publish = false

[dependencies]
getrandom = "=0.3.4"
wasm-bindgen = "=0.2.129"
egui = "0.32"
eframe = { version = "0.32", default-features = false }
egui_extras = { version = "0.32", default-features = false }
rodio = { version = "0.21", default-features = false }
