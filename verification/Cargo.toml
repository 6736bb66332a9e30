[package]
name = "blood_geometry"
version = "0.1.0"
edition = "2021"
publish = false

[dependencies]
arbitrary = "*"
euclid = "*"
kurbo = "*"
lyon_geom = "*"
mint = "*"
num-traits = "*"
serde = { version = "*", features = ["derive"] }
tracing = "*"
