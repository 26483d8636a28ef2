[package]
name = "silk"
version = "0.1.0"
edition = "2021"
publish = false

[dependencies]
rayon = "1"
ring = "*"
serde = { version = "1", features = ["derive"] }
sha2 = "*"
