[package]
name = "vsrg_renderer"
version = "0.1.0"
edition = "2021"
publish = false

[dependencies]
anyhow = "1"
chrono = "0.4"
clap = { version = "4", features = ["derive"] }
hound = "3"
macroquad = "0.4"
rodio = "0.19"
serde = { version = "1", features = ["derive"] }
serde_yaml = "0.9"
