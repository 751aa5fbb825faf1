[package]
name = "file_bundler"
version = "0.1.0"
edition = "2021"
publish = false

[dependencies]
rfd = { version = "=0.17.2", default-features = false, features = ["xdg-portal"] }
slint = { version = "*", default-features = false, features = ["std", "compat-1-2"] }
walkdir = "=2.5.0"
zip = { version = "=2.6.1", default-features = false, features = ["deflate"] }
