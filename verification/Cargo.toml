[package]
name = "ntp_monitor"
version = "0.1.0"
edition = "2021"

[dependencies]
chrono = { version = "=0.4.45", default-features = false, features = ["clock", "std"] }
eframe = { version = "*", default-features = false, features = ["default_fonts", "glow", "x11"] }
tokio = { version = "=1.54.1", features = ["net", "rt-multi-thread", "time"] }
