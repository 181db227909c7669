[package]
name = "ai-rt"
version = "0.1.0"
edition = "2021"
publish = false

[dependencies]
png = "*"
image = { version = "*", default-features = false, features = ["png"] }
nalgebra = "*"
bvh = "*"
rayon = "*"
clap = { version = "*", features = ["derive"] }
serde = { version = "*", features = ["derive"] }
serde_json = "*"
toml = "*"
rand = "*"
rand_chacha = "*"
