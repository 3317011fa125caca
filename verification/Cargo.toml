[package]
name = "nvdash"
version = "0.1.0"
edition = "2021"
publish = false

[dependencies]
nvml-wrapper = "*"
sysinfo = "*"
eframe = { version = "0.36", default-features = false, features = ["glow", "x11", "default_fonts"] }
egui = "0.36"
egui_plot = "*"
