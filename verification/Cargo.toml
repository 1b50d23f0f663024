[package]
name = "rand_explorer"
version = "0.1.0"
edition = "2021"
publish = false

[dependencies]
rand = "0.10"
rand_chacha = "*"
rand_pcg = "*"
rand_distr = "*"
serde = { version = "1", features = ["derive"] }
serde_json = "1"
eframe = { version = "*", default-features = false, features = ["default_fonts", "glow", "x11"] }
egui = "*"
egui_plot = "*"
plotly = "*"
