[package]
name = "stopwatches"
version = "0.1.0"
edition = "2021"
publish = false

[dependencies]
indexmap = "2"
eframe = { version = "=0.24.1", default-features = false, features = ["glow"] }
egui = "=0.24.1"
env_logger = { version = "*", default-features = false }
