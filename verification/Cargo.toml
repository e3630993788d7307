[package]
name = "bg3_save"
version = "0.1.0"
edition = "2021"
publish = false

[dependencies]
clap = { version = "4", features = ["derive"] }
egui_overlay = "*"
notify = "*"
serde = { version = "1", features = ["derive"] }
serde_json = "1"
thiserror = "*"
toml = "*"
walkdir = "2"
