[package]
name = "gmod_wstool"
version = "0.1.0"
edition = "2021"
publish = false

[dependencies]
arc-swap = "1"
egui = { version = "*", default-features = false }
egui_extras = { version = "*", default-features = false }
gma-lite = "*"
serde_json = "1"
steamworks = "*"
wildmatch = "2"
