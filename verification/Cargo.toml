[package]
name = "flowsurface_data"
version = "0.1.0"
edition = "2021"
publish = false

[dependencies]
serde = { version = "1", features = ["derive"] }
serde_json = "1"
thiserror = "2"
enum-map = { version = "2", features = ["serde"] }
