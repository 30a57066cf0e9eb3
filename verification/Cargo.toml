[package]
name = "generator"
version = "0.1.0"
edition = "2021"
publish = false

[dependencies]
anyhow = "1"
directories = "*"
once_cell = "1"
regex = "1"
serde_yaml = "0.9"
tera = "1"
thiserror = "*"
walkdir = "2"
