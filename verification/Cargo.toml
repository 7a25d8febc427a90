[package]
name = "chalice8"
version = "0.1.0"
edition = "2021"
publish = false

[dependencies]
iced = { version = "=0.14.0", default-features = false, features = ["canvas", "tiny-skia"] }
rodio = { version = "*", default-features = false, features = ["playback"] }
