[package]
name = "andremul"
version = "0.1.0"
edition = "2021"
publish = false

[dependencies]
dirs = "5"
ureq = "2"
zip = { version = "2", default-features = false, features = ["deflate"] }
flate2 = "1"
tar = "0.4"
serde = { version = "1", features = ["derive"] }
serde_json = "1"
