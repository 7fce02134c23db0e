[package]
name = "minero"
version = "0.1.0"
edition = "2021"
publish = false

[dependencies]
rusqlite = { version = "*", features = ["bundled"] }
id3 = "*"
walkdir = "*"
gtk4 = { version = "*", features = ["v4_12"] }
