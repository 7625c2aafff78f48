[package]
name = "apm_tracker"
version = "0.1.0"
edition = "2021"
publish = false

[dependencies]
device_query = "=4.0.1"
eframe = { version = "=0.36.2", default-features = false, features = ["glow", "x11"] }
