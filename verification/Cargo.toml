[package]
name = "oi_checker"
version = "0.1.0"
edition = "2021"
publish = false

[dependencies]
clap = "4"
console = "0.15"
once_cell = "1"
serde = { version = "1", features = ["derive"] }
threadpool = "1"
toml = "0.8"
