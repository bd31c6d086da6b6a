[package]
name = "atomblocks"
version = "0.1.0"
edition = "2021"
publish = false

[dependencies]
argh = "*"
log = "0.4"
serde = { version = "1", features = ["derive"] }
simple_logger = "*"
toml = "*"
x11rb = "*"
