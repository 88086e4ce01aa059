[package]
name = "obsclip"
version = "0.1.0"
edition = "2021"
publish = false

[dependencies]
chrono = "0.4"
dirs = "6"
serde = { version = "1", features = ["derive"] }
serde_json = "1"
thiserror = "2"
arboard = { version = "3", default-features = false }
reqwest = { version = "0.12", default-features = false, features = ["blocking", "rustls-tls"] }
image = { version = "0.25", default-features = false, features = ["png"] }
kreuzberg-tesseract = { version = "4", default-features = false }
objc2-app-kit = "0.3"
objc2-foundation = "0.3"
