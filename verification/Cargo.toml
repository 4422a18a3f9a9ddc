[package]
name = "chrome_lens_ocr"
version = "0.1.0"
edition = "2021"
publish = false

[dependencies]
anyhow = "1"
env_logger = "0.11"
image = "0.25"
prost = "0.13"
rand = "0.9"
reqwest = "0.12"
tokio = { version = "1", features = ["macros", "rt-multi-thread"] }
