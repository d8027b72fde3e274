[package]
name = "iced_font_awesome"
version = "0.1.0"
edition = "2021"
publish = false

[dependencies]
serde = { version = "=1.0.229", features = ["derive"] }
serde_json = "=1.0.151"
iced = { version = "=0.14.0", default-features = false, features = ["advanced", "x11", "thread-pool"] }
