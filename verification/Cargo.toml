[package]
name = "pm_translate"
version = "0.1.0"
edition = "2021"
publish = false

[dependencies]
clipboard-rs = { version = "*", default-features = false }
serde = { version = "1", features = ["derive"] }
serde_json = "1"
tokio = { version = "1", features = ["time"] }
