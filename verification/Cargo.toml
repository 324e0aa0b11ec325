[package]
name = "game_of_life_engine"
version = "0.1.0"
edition = "2021"
publish = false

[dependencies]
gloo-timers = "=0.3.0"
js-sys = "=0.3.69"
serde = { version = "=1.0.219", features = ["derive"] }
serde-wasm-bindgen = "=0.6.5"
wasm-bindgen = "=0.2.92"
web-sys = { version = "=0.3.69", features = ["CanvasRenderingContext2d", "console"] }
