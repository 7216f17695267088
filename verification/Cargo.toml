[package]
name = "ascii_shadow"
version = "0.1.0"
edition = "2021"
publish = false

[dependencies]
image = { version = "0.25", default-features = false, features = ["png", "jpeg", "gif", "bmp", "webp", "tiff"] }
gif = "0.13"
thiserror = "1"
anyhow = "1"
clap = { version = "4", features = ["derive"] }
crossterm = "0.28"
ctrlc = "3"
reqwest = { version = "0.12", default-features = false, features = ["blocking", "rustls-tls"] }
