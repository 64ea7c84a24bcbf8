[package]
name = "planet_sim"
version = "0.1.0"
edition = "2021"
publish = false

[dependencies]
rustc_apfloat = "*"
astro-float = "*"
serde = { version = "*", features = ["derive"] }
serde_json = "*"
