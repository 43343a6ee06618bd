[package]
name = "btop_gui"
version = "0.1.0"
edition = "2021"
publish = false

[dependencies]
chrono = "0.4"
egui = "0.28"
egui_extras = { version = "0.28", default-features = false }
egui_plot = "0.28"
nvml-wrapper = "0.10"
parking_lot = "0.12"
serde = { version = "1", features = ["derive"] }
serde_json = "1"
sysinfo = { version = "0.30", default-features = false }
