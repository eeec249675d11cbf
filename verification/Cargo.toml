[package]
name = "clash_render"
version = "0.1.0"
edition = "2021"
publish = false

[dependencies]
ansi_term = "0.12"
dissimilar = "1"
serde = { version = "1", features = ["derive"] }

[dev-dependencies]
regex = "1"
