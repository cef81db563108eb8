[package]
name = "vecred"
version = "0.1.0"
edition = "2021"
publish = false

[dependencies]
rand = "0.9"
iced = { version = "0.13", default-features = false, features = ["canvas", "tiny-skia"] }
libloading = "0.8"
csv = "1"
serde = { version = "1", features = ["derive"] }
