[package]
name = "rust_chat"
version = "0.1.0"
edition = "2021"
publish = false

[dependencies]
tokio = { version = "1", features = ["full"] }
eframe = { version = "0.23", default-features = false, features = ["glow", "default_fonts", "x11"] }
