[package]
name = "term_session"
version = "0.1.0"
edition = "2021"
publish = false

[dependencies]
chrono = "*"
serde = { version = "*", features = ["derive"] }
eframe = { version = "*", default-features = false, features = ["glow", "x11", "persistence"] }
