[package]
name = "header_translator"
version = "0.1.0"
edition = "2021"
publish = false

[dependencies]
clang = { version = "=2.1.0", features = ["runtime", "clang_10_0"] }
serde = { version = "=1.0.229", features = ["derive"] }
toml = "*"
