[package]
name = "avif_batch"
version = "0.1.0"
edition = "2021"
publish = false

[dependencies]
anyhow = "1"
chrono = "0.4"
image = { version = "0.25", default-features = false, features = ["jpeg", "png", "tiff"] }
ravif = { version = "0.11", default-features = false, features = ["threading"] }
rayon = "1"
rexif = "0.7"
walkdir = "2"
