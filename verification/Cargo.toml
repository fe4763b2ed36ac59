[package]
name = "chopper"
version = "0.1.0"
edition = "2021"
publish = false

[dependencies]
eframe = { version = "=0.29.1", default-features = false, features = ["default_fonts", "glow", "x11"] }
egui = { version = "=0.29.1", default-features = false, features = ["default_fonts"] }
hound = "3.5.1"
rtrb = "0.3.6"
