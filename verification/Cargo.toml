[package]
name = "daq_monitor"
version = "0.1.0"
edition = "2021"
publish = false

[dependencies]
daqmx = "=0.0.1"
eframe = { version = "=0.23.0", default-features = false, features = ["default_fonts", "glow"] }
