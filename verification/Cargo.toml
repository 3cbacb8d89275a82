[package]
name = "string_canvas"
version = "0.1.0"
edition = "2021"
publish = false

[dependencies]
rand = "0.8"
cursive = { version = "0.20", default-features = false, features = ["crossterm-backend"] }
