[package]
name = "zen_monitor"
version = "0.1.0"
edition = "2021"
publish = false

[dependencies]
eframe = { version = "=0.33.3", default-features = false, features = ["default_fonts", "glow", "x11"] }
egui = "=0.33.3"
egui_plot = "=0.34.1"
sysinfo = "*"
