[package]
name = "netup"
version = "0.1.0"
edition = "2021"
publish = false

[dependencies]
chrono = "0.4"
clap = { version = "4", features = ["derive"] }
csv = "1"
eframe = { version = "*", default-features = false, features = ["glow", "default_fonts", "x11"] }
egui = "*"
sha2 = "0.10"
tracing = "0.1"
tracing-subscriber = "0.3"

[dev-dependencies]
bincode = "1"
