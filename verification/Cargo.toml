[package]
name = "flashcards"
version = "0.1.0"
edition = "2021"
publish = false

[dependencies]
eframe = { version = "0.25", default-features = false, features = ["default_fonts", "glow", "wayland"] }
egui = "0.25"
egui_extras = "0.25"
ehttp = "0.3"
poll-promise = "0.3"
serde = { version = "1", features = ["derive"] }
turbosql = "*"
