[package]
name = "file_backup"
version = "0.1.0"
edition = "2021"
publish = false

[dependencies]
chrono = "0.4"
num_cpus = "1"
image = { version = "0.25", default-features = false, features = ["png", "jpeg", "gif", "bmp", "ico", "webp"] }
walkdir = "2"
reqwest = { version = "0.12", features = ["blocking"] }
futures-util = "0.3"
tao = "0.30"
native-dialog = "0.9"
winsafe = "0.0.29"
