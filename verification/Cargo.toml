[package]
name = "nmea_ingest"
version = "0.1.0"
edition = "2021"
publish = false

[dependencies]
serialport = { version = "4", default-features = false }
eframe = { version = "0.27", default-features = false, features = ["glow"] }
egui_plot = "0.27"
