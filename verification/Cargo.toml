[package]
name = "backup_bundler"
version = "0.1.0"
edition = "2021"
publish = false

[dependencies]
age = "*"
chrono = "*"
tar = "*"
walkdir = "*"
