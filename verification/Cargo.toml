[package]
name = "ak_motor"
version = "0.1.0"
edition = "2021"
publish = false

[dependencies]
eframe = { version = "*", default-features = false, features = ["default_fonts", "glow", "x11"] }
serialport = { version = "*", default-features = false }
socketcan = { version = "*", default-features = false }
