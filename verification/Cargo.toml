[package]
name = "kullflow"
version = "0.1.0"
edition = "2021"
publish = false

[dependencies]
fast_image_resize = "5"
image = "0.25"
mime = "0.3"
mime_guess = "2"
moka = { version = "0.12", features = ["sync"] }
serde = { version = "1", features = ["derive"] }
