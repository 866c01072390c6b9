[package]
name = "poster_maker"
version = "0.1.0"
edition = "2021"
publish = false

[dependencies]
image = { version = "0.25", default-features = false, features = ["png", "jpeg", "webp", "bmp", "tiff"] }
serde = { version = "1", features = ["derive"] }
thiserror = "2"
