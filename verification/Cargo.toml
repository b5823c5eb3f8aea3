[package]
name = "file_manager"
version = "0.1.0"
edition = "2021"
publish = false

[dependencies]
blake3 = "1"
flate2 = "1"
rand = "0.8"
sha2 = "0.10"
tar = "0.4"
walkdir = "2"
zip = { version = "0.6", default-features = false, features = ["deflate", "time"] }
