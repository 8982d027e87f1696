[package]
name = "auto_shake"
version = "0.1.0"
edition = "2021"
publish = false

[dependencies]
crossbeam-channel = "0.5"
eframe = { version = "0.29", default-features = false, features = ["glow", "x11", "default_fonts"] }
env_logger = { version = "0.11", default-features = false }
global-hotkey = "0.6"
image = { version = "0.25", default-features = false, features = ["ico"] }
parking_lot = "0.12"
