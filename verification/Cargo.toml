[package]
name = "lsps2_service"
version = "0.1.0"
edition = "2021"
publish = false

[dependencies]
bitcoin = "0.30.2"
lightning = "0.0.123"
