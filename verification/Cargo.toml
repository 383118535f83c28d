[package]
name = "node_modules_cleaner"
version = "0.1.0"
edition = "2021"
publish = false

[dependencies]
rayon = "1"
serde = { version = "1", features = ["derive"] }
walkdir = "2"
