[package]
name = "walpsel"
version = "0.1.0"
edition = "2021"
publish = false

[dependencies]
yaml-rust2 = "*"
eframe = { version = "*", default-features = false, features = ["glow", "x11"] }
egui = "*"
egui_extras = { version = "*", default-features = false, features = ["image"] }
