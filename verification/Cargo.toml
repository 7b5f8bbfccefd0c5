[package]
name = "tiles_rs"
version = "0.1.0"
edition = "2021"
publish = false

[dependencies]
actix-web = "4"
anyhow = "1"
chrono = "0.4"
clap = { version = "4", features = ["derive"] }
flexi_logger = "*"
log = "0.4"
