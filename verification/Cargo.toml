[package]
name = "hollow_knight_save_converter"
version = "0.1.0"
edition = "2021"
publish = false

[dependencies]
aes = "0.8"
ecb = "0.1"
base64 = "0.22"
serde_json = "1"
clap = { version = "4", features = ["derive"] }
