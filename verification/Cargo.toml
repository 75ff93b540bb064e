[package]
name = "rm690b0_rs"
version = "0.1.0"
edition = "2021"
publish = false

[dependencies]
embedded-graphics-core = "*"
embedded-hal = "*"
esp-hal = { version = "*", default-features = false, features = ["esp32s3", "unstable"] }
