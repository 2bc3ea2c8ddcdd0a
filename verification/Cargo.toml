[package]
name = "des_kernel"
version = "0.1.0"
edition = "2021"
publish = false

[dependencies]
bevy_ecs = { version = "0.15", default-features = false }
csv = "1"
ordered-float = "4"
rand = { version = "0.9", features = ["small_rng"] }
serde = { version = "1", features = ["derive"] }
