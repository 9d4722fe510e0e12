[package]
name = "chrysanthemum"
version = "0.1.0"
edition = "2021"
publish = false

[dependencies]
regex = "1"
unicode-security = "*"
once_cell = "1"
tokio = { version = "1", features = ["sync"] }
twilight-model = "*"
