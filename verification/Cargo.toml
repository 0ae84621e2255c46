[package]
name = "lux_editor"
version = "0.1.0"
edition = "2021"
publish = false

[dependencies]
ropey = { version = "=1.6.1", default-features = false }
eframe = { version = "0.29", default-features = false, features = ["default_fonts", "glow", "x11"] }
arboard = { version = "3", default-features = false }
rfd = "0.15"
syntect = { version = "5", default-features = false, features = ["default-fancy"] }
