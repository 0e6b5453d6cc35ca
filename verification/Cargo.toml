[package]
name = "automata"
version = "0.1.0"
edition = "2021"
publish = false

[dependencies]
amethyst = { version = "*", default-features = false, features = ["renderer", "vulkan"] }
amethyst_rendy = { version = "*", default-features = false }
serde = { version = "1", features = ["derive"] }
