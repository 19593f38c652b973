[package]
name = "mountain_snail"
version = "0.1.0"
edition = "2021"
publish = false

[dependencies]
anyhow = "1"
console = "*"
dialoguer = { version = "*", features = ["history"] }
gpx = "*"
humanize-duration = "*"
readable = "*"
serde = { version = "1", features = ["derive"] }
serde_json = "1"
time = "*"
vincenty-core = "*"
