[package]
name = "wordweave_ui"
version = "0.1.0"
edition = "2021"
publish = false

[dependencies]
base64 = "0.22"
image = { version = "0.25", default-features = false, features = ["bmp", "gif", "jpeg", "png"] }
chrono = "0.4"
serde = { version = "1", features = ["derive"] }
serde_json = "1"
egui = "0.31"
reqwest = { version = "0.12", default-features = false, features = ["blocking", "rustls-tls"] }
