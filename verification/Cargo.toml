[package]
name = "quasar"
version = "0.1.0"
edition = "2021"
publish = false

[dependencies]
thiserror = "2"
hound = "3"
bincode = { version = "2", features = ["serde"] }
serde = { version = "1", features = ["derive"] }
bytemuck = { version = "1", features = ["derive"] }
glam = "0.29"
rayon = "1"
wgpu = { version = "24", default-features = false, features = ["wgsl"] }
