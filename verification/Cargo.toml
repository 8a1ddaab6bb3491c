[package]
name = "intersection_polygon"
version = "0.1.0"
edition = "2021"
publish = false

[dependencies]
dimensioned = "=0.7.0"
serde = { version = "=1.0.229", features = ["derive"] }
