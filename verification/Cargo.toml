[package]
name = "ai_music_browser_detector"
version = "0.1.0"
edition = "2021"
publish = false

[dependencies]
hound = "3.5"
realfft = "3"
rubato = "0.16"
scirs2-core = "*"
scirs2-interpolate = "*"
serde = { version = "1", features = ["derive"] }
serde_cbor = "0.11"
wasm-bindgen = "0.2"
