[package]
name = "dream"
version = "0.1.0"
edition = "2021"
publish = false

[dependencies]
shipyard = { version = "=0.11.5", default-features = false, features = ["std"] }
image = { version = "=0.25.10", default-features = false, features = ["png", "jpeg"] }
uuid = { version = "=1.29.0", features = ["v4"] }
serde = { version = "=1.0.229", features = ["derive"] }
serde_yaml = "=0.9.34"
gltf = { version = "=1.4.1", default-features = false, features = ["names"] }
