[package]
name = "zip_easy"
version = "0.1.0"
edition = "2021"
publish = false

[dependencies]
zip = { version = "0.6", default-features = false, features = ["deflate"] }
eframe = "0.15"
rfd = "0.6"
