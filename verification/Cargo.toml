[package]
name = "integrity"
version = "0.1.0"
edition = "2021"
publish = false

[dependencies]
regex = "1"
serde = { version = "1", features = ["derive"] }
serde_json = "1"
thiserror = "*"
clap = { version = "4", features = ["derive"] }
anyhow = "1"
eframe = { version = "=0.29.1", default-features = false, features = ["default_fonts", "glow", "x11"] }
