[package]
name = "screenblocker"
version = "0.1.0"
edition = "2021"
publish = false

[dependencies]
chrono = "0.4"
directories = "5"
fastrand = "2"
serde = { version = "1", features = ["derive"] }
serde_json = "1"
tiny-skia = "0.11"
